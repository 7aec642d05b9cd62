//! The engine's types that the rules carry, and the two engine calls that
//! they make: the comparison of two entity handles and the tick of a timer.

use vstd::prelude::*;
use bevy::ecs::entity::Entity;
use bevy::time::{Timer, TimerMode};
use std::time::Duration;

verus! {

/// `bevy::math::Vec3`, a point or a displacement of the engine. It is
/// declared so that the rules can carry one; they never look inside.
#[verifier::external_type_specification]
#[verifier::external_body]
pub struct ExVec3(bevy::math::Vec3);

/// `bevy::math::primitives::Direction3d`, a unit vector of the engine. It is
/// declared so that the rules can carry one; they never look inside.
#[verifier::external_type_specification]
#[verifier::external_body]
pub struct ExDirection3d(bevy::math::primitives::Direction3d);

/// `bevy::ecs::entity::Entity`, the engine's handle of one entity: an index
/// and a generation. The rules carry handles and compare them, no more.
#[verifier::external_type_specification]
#[verifier::external_body]
pub struct ExEntity(bevy::ecs::entity::Entity);

/// `Entity`'s `PartialEq::eq`. The engine compares two handles by all their
/// bits, index and generation, so it answers `true` exactly when the two are
/// the same handle. Not proved: taken from the engine's source.
#[verifier::external_body]
pub(crate) fn same_entity(a: Entity, b: Entity) -> (same: bool)
    ensures
        same == (a == b),
{
    a == b
}

/// Whether `wanted` is one of `list`.
pub fn contains_entity(list: &Vec<Entity>, wanted: Entity) -> (found: bool)
    ensures
        found == list@.contains(wanted),
{
    let mut i: usize = 0;
    while i < list.len()
        invariant
            i <= list.len(),
            forall|k: int| 0 <= k < i ==> list@[k] != wanted,
        decreases list.len() - i,
    {
        if same_entity(list[i], wanted) {
            return true;
        }
        i += 1;
    }
    false
}

/// One `Timer::tick` of the engine's `bevy::time::Timer`, on a timer made by
/// `Timer::new` in `TimerMode::Once` with a duration of `duration_ns`
/// nanoseconds and set by `Timer::set_elapsed` to have run for `elapsed_ns`.
/// Returns what `Timer::elapsed` and `Timer::finished` say after the tick.
///
/// Not proved, taken from the engine's source: the tick adds `delta_ns` to
/// the elapsed time; the timer is finished if that has reached the duration;
/// a finished one-shot timer holds its elapsed time at the duration.
#[verifier::external_body]
pub(crate) fn tick_once(duration_ns: u64, elapsed_ns: u64, delta_ns: u64) -> (after: (u64, bool))
    ensures
        after.1 == (elapsed_ns + delta_ns >= duration_ns),
        after.0 == if after.1 { duration_ns as int } else { elapsed_ns + delta_ns },
{
    let mut timer = Timer::new(Duration::from_nanos(duration_ns), TimerMode::Once);
    timer.set_elapsed(Duration::from_nanos(elapsed_ns));
    timer.tick(Duration::from_nanos(delta_ns));
    (timer.elapsed().as_nanos() as u64, timer.finished())
}

} // verus!
