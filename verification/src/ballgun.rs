//! The ball gun: small props shot into the world, and taken out of it again.
//!
//! A counter keeps the number of live props. Every ball shot raises it by
//! one; every delete that finds a live prop lowers it by one; a delete that
//! names anything else changes nothing.

use vstd::prelude::*;
use bevy::ecs::entity::Entity;
use bevy::math::primitives::Direction3d;
use bevy::math::Vec3;
use crate::engine::contains_entity;
use crate::player::{DeleteBall, ShotBall};

verus! {

/// The number of live props.
#[derive(Clone, Copy, Debug)]
pub struct BallCount(pub i32);

impl BallCount {
    /// The counter at startup: no props yet.
    pub fn new() -> (count: BallCount)
        ensures
            count.0 == 0,
    {
        BallCount(0)
    }
}

/// One prop to create: the caller spawns a ball at `position` that flies
/// along `direction` at the launch speed.
#[derive(Clone, Copy, Debug)]
pub struct BallSpawn {
    pub position: Vec3,
    pub direction: Direction3d,
}

/// The props that a queue of ball events creates: one for each event, in the
/// order of the events.
pub open spec fn balls_spawned(events: Seq<ShotBall>) -> Seq<BallSpawn> {
    Seq::new(events.len(), |i: int| BallSpawn { position: events[i].1, direction: events[i].0 })
}

/// The props that a queue of delete events removes, in the order in which
/// they go: an event removes the entity it names if that is one of the live
/// `props` and no earlier event of the queue has removed it already.
pub open spec fn doomed_props(events: Seq<DeleteBall>, props: Seq<Entity>) -> Seq<Entity>
    decreases events.len(),
{
    if events.len() == 0 {
        Seq::empty()
    } else {
        let earlier = doomed_props(events.drop_last(), props);
        let target = events.last().0;
        if props.contains(target) && !earlier.contains(target) {
            earlier.push(target)
        } else {
            earlier
        }
    }
}

/// What [`doomed_props`] holds: live props that an event names, each of them
/// once, and all of them.
pub proof fn lemma_doomed_props(events: Seq<DeleteBall>, props: Seq<Entity>)
    ensures
        doomed_props(events, props).len() <= events.len(),
        doomed_props(events, props).no_duplicates(),
        forall|e: Entity| #[trigger]
            doomed_props(events, props).contains(e) ==> props.contains(e) && events.contains(
                DeleteBall(e),
            ),
        forall|i: int|
            0 <= i < events.len() && props.contains(events[i].0) ==> doomed_props(
                events,
                props,
            ).contains(#[trigger] events[i].0),
    decreases events.len(),
{
    let doomed = doomed_props(events, props);
    if events.len() > 0 {
        let earlier_events = events.drop_last();
        let earlier = doomed_props(earlier_events, props);
        let target = events.last().0;
        lemma_doomed_props(earlier_events, props);
        assert forall|e: Entity| #[trigger] doomed.contains(e) implies props.contains(e)
            && events.contains(DeleteBall(e)) by {
            let k = doomed.index_of(e);
            if k < earlier.len() {
                assert(earlier[k] == e);
                assert(earlier.contains(e));
                let m = earlier_events.index_of(DeleteBall(e));
                assert(events[m] == DeleteBall(e));
            } else {
                assert(e == target);
                assert(events[events.len() - 1] == DeleteBall(e));
            }
        }
        assert forall|i: int| 0 <= i < events.len() && props.contains(events[i].0) implies doomed.contains(
            #[trigger] events[i].0,
        ) by {
            let e = events[i].0;
            if i < earlier_events.len() {
                assert(earlier_events[i].0 == e);
                let k = earlier.index_of(e);
                assert(doomed[k] == e);
            } else if earlier.contains(e) {
                let k = earlier.index_of(e);
                assert(doomed[k] == e);
            } else {
                assert(doomed[doomed.len() - 1] == e);
            }
        }
    }
}

/// The props doomed by the first `n` events of a queue are no more than those
/// doomed by all of it.
proof fn lemma_doomed_props_grow(events: Seq<DeleteBall>, props: Seq<Entity>, n: int)
    requires
        0 <= n <= events.len(),
    ensures
        doomed_props(events.take(n), props).len() <= doomed_props(events, props).len(),
    decreases events.len(),
{
    if n == events.len() {
        assert(events.take(n) == events);
    } else {
        assert(events.take(n) == events.drop_last().take(n));
        lemma_doomed_props_grow(events.drop_last(), props, n);
    }
}

/// Consumes the queued ball events: each asks for one prop at its position,
/// flying in its direction, and raises the counter by one. The queue is left
/// empty.
pub fn fondle_balls(event: &mut Vec<ShotBall>, ball_count: &mut BallCount) -> (spawns: Vec<
    BallSpawn,
>)
    requires
        old(ball_count).0 + old(event)@.len() <= i32::MAX,
    ensures
        final(event)@.len() == 0,
        spawns@ == balls_spawned(old(event)@),
        final(ball_count).0 == old(ball_count).0 + old(event)@.len(),
{
    let mut spawns: Vec<BallSpawn> = Vec::new();
    let mut i: usize = 0;
    while i < event.len()
        invariant
            i <= event.len(),
            event@ == old(event)@,
            spawns@ == balls_spawned(old(event)@.take(i as int)),
            ball_count.0 == old(ball_count).0 + i,
            old(ball_count).0 + old(event)@.len() <= i32::MAX,
        decreases event.len() - i,
    {
        let ShotBall(direction, position) = event[i];
        spawns.push(BallSpawn { position, direction });
        ball_count.0 = ball_count.0 + 1;
        i += 1;
    }
    assert(old(event)@.take(i as int) == old(event)@);
    event.clear();
    spawns
}

/// Consumes the queued delete events against `props`, the live props of the
/// world. An event whose entity is a live prop, and which no earlier event of
/// the queue has removed, puts it on the list of props to destroy and lowers
/// the counter by one. An event that names anything else does nothing. The
/// queue is left empty.
pub fn kill_balls(
    event: &mut Vec<DeleteBall>,
    props: &Vec<Entity>,
    ball_count: &mut BallCount,
) -> (doomed: Vec<Entity>)
    requires
        old(ball_count).0 - doomed_props(old(event)@, props@).len() >= i32::MIN,
    ensures
        final(event)@.len() == 0,
        doomed@ == doomed_props(old(event)@, props@),
        final(ball_count).0 == old(ball_count).0 - doomed@.len(),
        doomed@.no_duplicates(),
        forall|e: Entity| #[trigger]
            doomed@.contains(e) ==> props@.contains(e) && old(event)@.contains(DeleteBall(e)),
        forall|i: int|
            0 <= i < old(event)@.len() && props@.contains(old(event)@[i].0) ==> doomed@.contains(
                #[trigger] old(event)@[i].0,
            ),
        (forall|i: int| 0 <= i < old(event)@.len() ==> !props@.contains(
            (#[trigger] old(event)@[i]).0,
        )) ==> final(ball_count).0 == old(ball_count).0,
{
    let mut doomed: Vec<Entity> = Vec::new();
    let mut i: usize = 0;
    while i < event.len()
        invariant
            i <= event.len(),
            event@ == old(event)@,
            doomed@ == doomed_props(old(event)@.take(i as int), props@),
            doomed@.len() <= i,
            ball_count.0 == old(ball_count).0 - doomed@.len(),
            old(ball_count).0 - doomed_props(old(event)@, props@).len() >= i32::MIN,
        decreases event.len() - i,
    {
        assert(old(event)@.take(i as int + 1).drop_last() == old(event)@.take(i as int));
        proof {
            lemma_doomed_props_grow(old(event)@, props@, i as int + 1);
        }
        let DeleteBall(entity) = event[i];
        if contains_entity(props, entity) && !contains_entity(&doomed, entity) {
            doomed.push(entity);
            ball_count.0 = ball_count.0 - 1;
        }
        i += 1;
    }
    assert(old(event)@.take(i as int) == old(event)@);
    proof {
        lemma_doomed_props(old(event)@, props@);
        if doomed@.len() > 0 {
            let e = doomed@[0];
            assert(doomed@.contains(e));
            let m = old(event)@.index_of(DeleteBall(e));
            assert(props@.contains(old(event)@[m].0));
        }
    }
    event.clear();
    doomed
}

/// One thing that happens to the props of the world.
pub enum PropTrigger {
    /// A ball was shot, and the world made this prop for it.
    Shot(Entity),
    /// A delete named this entity.
    Delete(Entity),
}

/// The props as the rules see them: the live props of the world and the
/// counter kept beside them.
pub struct PropWorld {
    pub live: Set<Entity>,
    pub count: int,
}

impl PropWorld {
    /// The world at startup: no props, and the counter at zero.
    pub open spec fn startup() -> PropWorld {
        PropWorld { live: Set::empty(), count: 0 }
    }

    /// The world after one trigger. A shot adds its prop and raises the
    /// counter; a delete that names a live prop removes it and lowers the
    /// counter; any other delete leaves the world as it is.
    pub open spec fn step(self, trigger: PropTrigger) -> PropWorld {
        match trigger {
            PropTrigger::Shot(prop) => PropWorld {
                live: self.live.insert(prop),
                count: self.count + 1,
            },
            PropTrigger::Delete(target) => if self.live.contains(target) {
                PropWorld { live: self.live.remove(target), count: self.count - 1 }
            } else {
                self
            },
        }
    }

    /// The world after a run of triggers, oldest first.
    pub open spec fn run(self, trace: Seq<PropTrigger>) -> PropWorld
        decreases trace.len(),
    {
        if trace.len() == 0 {
            self
        } else {
            self.run(trace.drop_last()).step(trace.last())
        }
    }

    /// How many deletes of `trace` find a live prop when their turn comes.
    pub open spec fn kills(self, trace: Seq<PropTrigger>) -> int
        decreases trace.len(),
    {
        if trace.len() == 0 {
            0
        } else {
            let before = self.run(trace.drop_last());
            self.kills(trace.drop_last()) + match trace.last() {
                PropTrigger::Delete(target) if before.live.contains(target) => 1int,
                _ => 0int,
            }
        }
    }

    /// Whether every shot of `trace` makes a prop that is not live already,
    /// as a world does that hands out each handle once.
    pub open spec fn spawns_fresh(self, trace: Seq<PropTrigger>) -> bool
        decreases trace.len(),
    {
        if trace.len() == 0 {
            true
        } else {
            let before = self.run(trace.drop_last());
            self.spawns_fresh(trace.drop_last()) && match trace.last() {
                PropTrigger::Shot(prop) => !before.live.contains(prop),
                PropTrigger::Delete(_) => true,
            }
        }
    }
}

/// How many shots `trace` holds.
pub open spec fn shots(trace: Seq<PropTrigger>) -> int
    decreases trace.len(),
{
    if trace.len() == 0 {
        0
    } else {
        shots(trace.drop_last()) + match trace.last() {
            PropTrigger::Shot(_) => 1int,
            PropTrigger::Delete(_) => 0int,
        }
    }
}

/// A queue of delete events as triggers of the world.
pub open spec fn delete_triggers(events: Seq<DeleteBall>) -> Seq<PropTrigger> {
    Seq::new(events.len(), |i: int| PropTrigger::Delete(events[i].0))
}

/// The props made for a queue of ball events as triggers of the world.
pub open spec fn shot_triggers(made: Seq<Entity>) -> Seq<PropTrigger> {
    Seq::new(made.len(), |i: int| PropTrigger::Shot(made[i]))
}

proof fn lemma_run_counts(world: PropWorld, trace: Seq<PropTrigger>)
    requires
        world.live.finite(),
        world.live.len() <= world.count,
    ensures
        world.run(trace).live.finite(),
        world.run(trace).live.len() <= world.run(trace).count,
        world.run(trace).count == world.count + shots(trace) - world.kills(trace),
        0 <= world.kills(trace),
        0 <= shots(trace) <= trace.len(),
        world.spawns_fresh(trace) && world.live.len() == world.count ==> world.run(
            trace,
        ).live.len() == world.run(trace).count,
    decreases trace.len(),
{
    if trace.len() > 0 {
        lemma_run_counts(world, trace.drop_last());
    }
}

/// From startup, after any run of ball shots and deletes, the counter is the
/// number of shots less the number of deletes that found a live prop. No more
/// deletes succeed than balls were shot, and where the world hands out each
/// prop's handle once the counter is the number of live props.
pub proof fn law_count_is_shots_less_kills(trace: Seq<PropTrigger>)
    ensures
        PropWorld::startup().run(trace).count == shots(trace) - PropWorld::startup().kills(trace),
        0 <= PropWorld::startup().kills(trace) <= shots(trace),
        PropWorld::startup().spawns_fresh(trace) ==> PropWorld::startup().run(trace).count
            == PropWorld::startup().run(trace).live.len(),
{
    lemma_run_counts(PropWorld::startup(), trace);
}

/// A delete that names no live prop (one already removed, or no prop at all)
/// leaves the world as it was, counter included.
pub proof fn law_stale_delete_changes_nothing(world: PropWorld, target: Entity)
    requires
        !world.live.contains(target),
    ensures
        world.step(PropTrigger::Delete(target)) == world,
        world.step(PropTrigger::Delete(target)).step(PropTrigger::Delete(target)) == world,
{
}

/// Deleting the same prop twice is deleting it once.
pub proof fn law_delete_is_idempotent(world: PropWorld, target: Entity)
    ensures
        world.step(PropTrigger::Delete(target)).step(PropTrigger::Delete(target)) == world.step(
            PropTrigger::Delete(target),
        ),
{
}

/// What [`fondle_balls`] does to the counter is what the shots of its queue
/// do to the world's: `made` holds the prop that the world made for each
/// event.
pub proof fn law_fondle_balls_is_shots(world: PropWorld, made: Seq<Entity>)
    ensures
        world.run(shot_triggers(made)).count == world.count + made.len(),
    decreases made.len(),
{
    let trace = shot_triggers(made);
    if made.len() > 0 {
        law_fondle_balls_is_shots(world, made.drop_last());
        assert(trace.drop_last() == shot_triggers(made.drop_last()));
    }
}

/// What [`kill_balls`] does is what the deletes of its queue do to the world
/// one after the other: where `props` lists the live props, the props it
/// dooms are those that leave the world, and it lowers the counter as the
/// world's is lowered.
pub proof fn law_kill_balls_is_deletes(
    world: PropWorld,
    events: Seq<DeleteBall>,
    props: Seq<Entity>,
)
    requires
        world.live == props.to_set(),
    ensures
        world.run(delete_triggers(events)).live == world.live.difference(
            doomed_props(events, props).to_set(),
        ),
        world.run(delete_triggers(events)).count == world.count - doomed_props(events, props).len(),
    decreases events.len(),
{
    let trace = delete_triggers(events);
    let doomed = doomed_props(events, props);
    if events.len() == 0 {
        assert(world.live.difference(doomed.to_set()) == world.live);
    } else {
        let earlier = doomed_props(events.drop_last(), props);
        let target = events.last().0;
        law_kill_balls_is_deletes(world, events.drop_last(), props);
        assert(trace.drop_last() == delete_triggers(events.drop_last()));
        assert(trace.last() == PropTrigger::Delete(target));
        let before = world.run(trace.drop_last());
        assert(before.live.contains(target) <==> (props.contains(target) && !earlier.contains(
            target,
        )));
        if before.live.contains(target) {
            assert(doomed == earlier.push(target));
            assert forall|e: Entity| doomed.to_set().contains(e) <==> (earlier.to_set().contains(e)
                || e == target) by {
                if earlier.contains(e) {
                    let k = earlier.index_of(e);
                    assert(doomed[k] == e);
                }
                if e == target {
                    assert(doomed[doomed.len() - 1] == e);
                }
            }
            assert(before.live.remove(target) == world.live.difference(doomed.to_set()));
        }
    }
}

} // verus!
