//! The player controller.
//!
//! Each frame the controller is handed what was read of the keyboard and the
//! mouse and the result of the downward ground probe. [`control_player`]
//! updates the pause state and the grounded flag and answers with a
//! [`FramePlan`]: what the caller is to do with the cursor, the camera and the
//! player's velocity, and which targeting queries it is to run. Once those
//! queries are answered, [`weapon_triggers`] queues the trigger events.

use vstd::prelude::*;
use bevy::ecs::entity::Entity;
use bevy::math::primitives::Direction3d;
use bevy::math::Vec3;

verus! {

/// The player singleton's controller state.
#[derive(Clone, Copy, Debug)]
pub struct Player {
    pub paused: bool,
}

/// Whether the player stands on fixed geometry.
#[derive(Clone, Copy, Debug)]
pub struct Grounded(pub bool);

/// A rocket struck fixed geometry at this point.
#[derive(Clone, Copy, Debug)]
pub struct ShotRocket(pub Vec3);

/// A ball leaves in this direction from this position.
#[derive(Clone, Copy, Debug)]
pub struct ShotBall(pub Direction3d, pub Vec3);

/// The targeting sweep hit this entity; it is removed if it is a prop.
#[derive(Clone, Copy, Debug)]
pub struct DeleteBall(pub Entity);

/// One frame of keyboard and mouse state.
#[derive(Clone, Copy, Debug)]
pub struct InputSnapshot {
    /// The pause key went down in this frame.
    pub pause: bool,
    /// The forward key is held.
    pub forward: bool,
    /// The backward key is held.
    pub back: bool,
    /// The left key is held.
    pub left: bool,
    /// The right key is held.
    pub right: bool,
    /// The jump key is held.
    pub jump: bool,
    /// The delete key is held.
    pub delete: bool,
    /// The rocket button went down in this frame.
    pub fire_rocket: bool,
    /// The ball button is held.
    pub fire_ball: bool,
}

/// What the caller does with the input cursor.
#[derive(Clone, Copy, Debug, PartialEq, Eq, Structural)]
pub enum CursorMode {
    /// Released and visible.
    Released,
    /// Captured and hidden.
    Captured,
}

/// The held movement keys, summed in the camera's own frame: `forward` counts
/// along the camera's forward axis, `right` along its right axis. The caller
/// turns this into a horizontal world vector and scales it to unit length.
#[derive(Clone, Copy, Debug, PartialEq, Eq, Structural)]
pub struct MoveIntent {
    pub forward: i8,
    pub right: i8,
}

/// What one frame asks of the caller.
#[derive(Clone, Copy, Debug, PartialEq, Eq, Structural)]
pub struct FramePlan {
    /// The cursor mode to set.
    pub cursor: CursorMode,
    /// Turn the camera by this frame's mouse motion.
    pub look: bool,
    /// The movement to add to the horizontal velocity.
    pub intent: MoveIntent,
    /// Overwrite the vertical velocity with the launch speed.
    pub jump: bool,
    /// Cast the rocket ray from the camera against fixed geometry.
    pub rocket_ray: bool,
    /// Emit a ball from the muzzle.
    pub shoot_ball: bool,
    /// Sweep the targeting sphere forward against dynamic bodies.
    pub delete_sweep: bool,
}

/// What came back from the queries that a [`FramePlan`] asked for, and the
/// muzzle from which a ball would leave.
#[derive(Clone, Copy, Debug)]
pub struct Aim {
    /// The ball that leaves the muzzle if one is shot.
    pub muzzle: ShotBall,
    /// Where the rocket ray struck fixed geometry, if it was cast and hit.
    pub rocket_hit: Option<Vec3>,
    /// The first dynamic body that the targeting sweep met, if it was swept and hit.
    pub delete_hit: Option<Entity>,
}

/// The trigger events queued in this frame and not yet consumed, oldest first.
pub struct Triggers {
    pub shot_rocket: Vec<ShotRocket>,
    pub shot_ball: Vec<ShotBall>,
    pub del_ball: Vec<DeleteBall>,
}

/// The pause state after a frame: the pause key's edge flips it, nothing else
/// touches it.
pub open spec fn paused_after(paused: bool, pause_key: bool) -> bool {
    paused != pause_key
}

/// `1` for a held key and `0` for a released one.
pub open spec fn held(key: bool) -> int {
    if key {
        1
    } else {
        0
    }
}

/// The movement keys of `input` summed in the camera's frame: opposite keys
/// cancel.
pub open spec fn intent_of(input: InputSnapshot) -> MoveIntent {
    MoveIntent {
        forward: (held(input.forward) - held(input.back)) as i8,
        right: (held(input.right) - held(input.left)) as i8,
    }
}

/// The plan of a frame in which the controller is paused (after the pause key
/// was applied) or not, with `grounded` the result of the ground probe.
///
/// While paused the cursor is released and no look, movement or weapon input
/// is processed. While active the cursor is captured, the camera follows the
/// mouse, the held movement keys give the intent, the jump key launches only
/// from the ground, and each weapon input asks for its query or its shot.
pub open spec fn frame_plan(paused: bool, input: InputSnapshot, grounded: bool) -> FramePlan {
    if paused {
        FramePlan {
            cursor: CursorMode::Released,
            look: false,
            intent: MoveIntent { forward: 0, right: 0 },
            jump: false,
            rocket_ray: false,
            shoot_ball: false,
            delete_sweep: false,
        }
    } else {
        FramePlan {
            cursor: CursorMode::Captured,
            look: true,
            intent: intent_of(input),
            jump: input.jump && grounded,
            rocket_ray: input.fire_rocket,
            shoot_ball: input.fire_ball,
            delete_sweep: input.delete,
        }
    }
}

/// The rocket events that a frame adds: one at the hit point if the ray was
/// asked for and struck something, none otherwise.
pub open spec fn rockets_fired(plan: FramePlan, aim: Aim) -> Seq<ShotRocket> {
    match aim.rocket_hit {
        Some(point) if plan.rocket_ray => seq![ShotRocket(point)],
        _ => Seq::empty(),
    }
}

/// The ball events that a frame adds: the muzzle's ball while the plan shoots.
pub open spec fn balls_fired(plan: FramePlan, aim: Aim) -> Seq<ShotBall> {
    if plan.shoot_ball {
        seq![aim.muzzle]
    } else {
        Seq::empty()
    }
}

/// The delete events that a frame adds: one for the body that the sweep met
/// if the sweep was asked for and met one, none otherwise.
pub open spec fn deletes_fired(plan: FramePlan, aim: Aim) -> Seq<DeleteBall> {
    match aim.delete_hit {
        Some(entity) if plan.delete_sweep => seq![DeleteBall(entity)],
        _ => Seq::empty(),
    }
}

impl Triggers {
    /// Three empty queues.
    pub fn new() -> (queues: Triggers)
        ensures
            queues.shot_rocket@.len() == 0,
            queues.shot_ball@.len() == 0,
            queues.del_ball@.len() == 0,
    {
        Triggers { shot_rocket: Vec::new(), shot_ball: Vec::new(), del_ball: Vec::new() }
    }
}

/// The state in which the player enters the world: paused and on the ground.
pub fn spawn_player() -> (spawned: (Player, Grounded))
    ensures
        spawned.0.paused,
        spawned.1.0,
{
    (Player { paused: true }, Grounded(true))
}

/// The held movement keys of `input`, summed in the camera's frame.
pub fn movement_intent(input: &InputSnapshot) -> (intent: MoveIntent)
    ensures
        intent == intent_of(*input),
        -1 <= intent.forward <= 1,
        -1 <= intent.right <= 1,
        (intent.forward == 0 && intent.right == 0) <==> (input.forward == input.back && input.left
            == input.right),
{
    let mut forward: i8 = 0;
    let mut right: i8 = 0;
    if input.forward {
        forward = forward + 1;
    }
    if input.back {
        forward = forward - 1;
    }
    if input.right {
        right = right + 1;
    }
    if input.left {
        right = right - 1;
    }
    MoveIntent { forward, right }
}

/// One frame of the player controller.
///
/// The pause key's edge flips the pause state first, and the rest of the
/// frame goes by the new state. The grounded flag becomes `ground_hit`, the
/// result of the downward probe against fixed geometry, whatever it was
/// before. The plan that comes back is [`frame_plan`] of the new pause state.
pub fn control_player(
    player: &mut Player,
    is_grounded: &mut Grounded,
    input: &InputSnapshot,
    ground_hit: bool,
) -> (plan: FramePlan)
    ensures
        final(player).paused == paused_after(old(player).paused, input.pause),
        final(is_grounded).0 == ground_hit,
        plan == frame_plan(final(player).paused, *input, ground_hit),
        plan.jump == (!final(player).paused && input.jump && ground_hit),
        final(player).paused ==> plan.cursor == CursorMode::Released && !plan.look && !plan.jump
            && !plan.rocket_ray && !plan.shoot_ball && !plan.delete_sweep && plan.intent
            == (MoveIntent { forward: 0, right: 0 }),
{
    if input.pause {
        player.paused = !player.paused;
    }
    is_grounded.0 = ground_hit;
    if player.paused {
        FramePlan {
            cursor: CursorMode::Released,
            look: false,
            intent: MoveIntent { forward: 0, right: 0 },
            jump: false,
            rocket_ray: false,
            shoot_ball: false,
            delete_sweep: false,
        }
    } else {
        FramePlan {
            cursor: CursorMode::Captured,
            look: true,
            intent: movement_intent(input),
            jump: input.jump && ground_hit,
            rocket_ray: input.fire_rocket,
            shoot_ball: input.fire_ball,
            delete_sweep: input.delete,
        }
    }
}

/// Queues the trigger events of a frame, after the queries that its plan
/// asked for have been answered in `aim`.
///
/// A rocket is queued at the ray's hit point, a ball at the muzzle, a delete
/// for the body that the sweep met; each only if the plan asked for it, and a
/// query that found nothing queues nothing. What was queued before stays, in
/// its order.
pub fn weapon_triggers(plan: &FramePlan, aim: &Aim, queues: &mut Triggers)
    ensures
        final(queues).shot_rocket@ == old(queues).shot_rocket@ + rockets_fired(*plan, *aim),
        final(queues).shot_ball@ == old(queues).shot_ball@ + balls_fired(*plan, *aim),
        final(queues).del_ball@ == old(queues).del_ball@ + deletes_fired(*plan, *aim),
{
    if plan.rocket_ray {
        match aim.rocket_hit {
            Some(point) => {
                queues.shot_rocket.push(ShotRocket(point));
            },
            None => {},
        }
    }
    if plan.shoot_ball {
        queues.shot_ball.push(aim.muzzle);
    }
    if plan.delete_sweep {
        match aim.delete_hit {
            Some(entity) => {
                queues.del_ball.push(DeleteBall(entity));
            },
            None => {},
        }
    }
}

/// Pressing the pause key in two frames returns the controller to the pause
/// state it had, whatever else was held and whatever the ground probes said.
/// Of the two frames exactly one is paused, and that one asks for no turn of
/// the camera.
pub proof fn law_two_pause_edges_restore(
    paused: bool,
    first: InputSnapshot,
    first_probe: bool,
    second: InputSnapshot,
    second_probe: bool,
)
    requires
        first.pause,
        second.pause,
    ensures
        paused_after(paused_after(paused, first.pause), second.pause) == paused,
        frame_plan(paused_after(paused, first.pause), first, first_probe).look != frame_plan(
            paused_after(paused_after(paused, first.pause), second.pause),
            second,
            second_probe,
        ).look,
{
}

/// A frame without the pause key's edge keeps the pause state.
pub proof fn law_pause_needs_edge(paused: bool, input: InputSnapshot)
    requires
        !input.pause,
    ensures
        paused_after(paused, input.pause) == paused,
{
}

/// A paused frame asks for nothing: no turn of the camera, no movement, no
/// jump, no query and no shot, whatever is held.
pub proof fn law_paused_frame_is_idle(input: InputSnapshot, grounded: bool)
    ensures
        frame_plan(true, input, grounded) == (FramePlan {
            cursor: CursorMode::Released,
            look: false,
            intent: MoveIntent { forward: 0, right: 0 },
            jump: false,
            rocket_ray: false,
            shoot_ball: false,
            delete_sweep: false,
        }),
{
}

/// The movement intent is zero exactly when no movement key is held or the
/// held keys cancel in pairs, and neither of its components exceeds one key.
pub proof fn law_intent_zero_iff_cancelled(input: InputSnapshot)
    ensures
        intent_of(input) == (MoveIntent { forward: 0, right: 0 }) <==> (input.forward == input.back
            && input.left == input.right),
        -1 <= intent_of(input).forward <= 1,
        -1 <= intent_of(input).right <= 1,
{
}

/// The jump is planned only in an active frame with the jump key held and the
/// ground probe hitting: an airborne player's vertical velocity is left alone.
pub proof fn law_jump_needs_ground(paused: bool, input: InputSnapshot, grounded: bool)
    ensures
        frame_plan(paused, input, grounded).jump <==> (!paused && input.jump && grounded),
        !frame_plan(paused, input, false).jump,
{
}

/// A frame queues at most one event of each kind, and none at all while the
/// controller is paused, whatever the queries are said to have found.
pub proof fn law_one_trigger_a_frame(paused: bool, input: InputSnapshot, grounded: bool, aim: Aim)
    ensures
        rockets_fired(frame_plan(paused, input, grounded), aim).len() <= 1,
        balls_fired(frame_plan(paused, input, grounded), aim).len() <= 1,
        deletes_fired(frame_plan(paused, input, grounded), aim).len() <= 1,
        paused ==> rockets_fired(frame_plan(paused, input, grounded), aim).len() == 0
            && balls_fired(frame_plan(paused, input, grounded), aim).len() == 0 && deletes_fired(
            frame_plan(paused, input, grounded),
            aim,
        ).len() == 0,
{
}

} // verus!
