//! Blasts: the short-lived explosion volumes that rockets leave behind.
//!
//! A blast is created where a rocket struck, lives for
//! [`BLAST_DURATION_NS`], and in every frame of its life pushes each dynamic
//! body that overlaps it away from its centre. The frame in which its timer
//! runs out is its last: it still pushes in that frame and is gone after it.

use vstd::prelude::*;
use bevy::ecs::entity::Entity;
use bevy::math::Vec3;
use crate::engine::{contains_entity, tick_once};
use crate::player::{Grounded, ShotRocket};

verus! {

/// How long a blast lives, in nanoseconds: a quarter of a second.
pub const BLAST_DURATION_NS: u64 = 250_000_000;

/// A live blast: where it is and how long it has burned.
#[derive(Clone, Copy, Debug)]
pub struct Blast {
    /// The centre of the blast volume.
    pub position: Vec3,
    /// The time for which the blast has been ticked, capped at its duration.
    pub elapsed_ns: u64,
}

/// One body to push: the caller adds to the velocity of `body` the vector
/// from `center` to the body, scaled by the frame time and the blast force.
#[derive(Clone, Copy, Debug)]
pub struct Impulse {
    pub body: Entity,
    pub center: Vec3,
}

/// What one frame of the blasts asks of the caller.
pub struct RocketFrame {
    /// The pushes to apply, blast by blast in the order of the blasts, and
    /// within one blast in the order of its overlapping bodies.
    pub impulses: Vec<Impulse>,
    /// For each blast that entered the frame, whether it ran out in it and is
    /// to be removed from the world.
    pub expired: Vec<bool>,
    /// Whether the player was among the bodies pushed.
    pub player_struck: bool,
}

impl Blast {
    /// A blast that has not burned yet.
    pub open spec fn fresh(position: Vec3) -> Blast {
        Blast { position, elapsed_ns: 0 }
    }

    /// Whether the blast's time has run out.
    pub open spec fn finished(self) -> bool {
        self.elapsed_ns >= BLAST_DURATION_NS
    }

    /// The blast after a frame of `delta_ns`: its elapsed time grows by the
    /// frame time and stops at the duration.
    pub open spec fn ticked(self, delta_ns: u64) -> Blast {
        Blast {
            position: self.position,
            elapsed_ns: if self.elapsed_ns + delta_ns >= BLAST_DURATION_NS {
                BLAST_DURATION_NS
            } else {
                (self.elapsed_ns + delta_ns) as u64
            },
        }
    }

    /// A blast at `position` that has not burned yet.
    pub fn new(position: Vec3) -> (blast: Blast)
        ensures
            blast == Blast::fresh(position),
            !blast.finished(),
    {
        Blast { position, elapsed_ns: 0 }
    }

    /// Ages the blast by one frame and says whether its time has run out.
    pub fn tick(&mut self, delta_ns: u64) -> (finished: bool)
        ensures
            *final(self) == old(self).ticked(delta_ns),
            finished == final(self).finished(),
            finished == (old(self).elapsed_ns + delta_ns >= BLAST_DURATION_NS),
    {
        let (elapsed_ns, finished) = tick_once(BLAST_DURATION_NS, self.elapsed_ns, delta_ns);
        self.elapsed_ns = elapsed_ns;
        finished
    }
}

/// The blasts that a queue of rocket events creates: one fresh blast at each
/// event's point, in the order of the events.
pub open spec fn spawned_blasts(events: Seq<ShotRocket>) -> Seq<Blast> {
    Seq::new(events.len(), |i: int| Blast::fresh(events[i].0))
}

/// The blasts that are still alive after a frame of `delta_ns`, aged by it and
/// in their old order.
pub open spec fn survivors(blasts: Seq<Blast>, delta_ns: u64) -> Seq<Blast>
    decreases blasts.len(),
{
    if blasts.len() == 0 {
        Seq::empty()
    } else {
        let rest = survivors(blasts.drop_last(), delta_ns);
        let aged = blasts.last().ticked(delta_ns);
        if aged.finished() {
            rest
        } else {
            rest.push(aged)
        }
    }
}

/// The bodies overlapping blast number `i`; a blast for which no list was
/// handed in overlaps nothing.
pub open spec fn bodies_of(overlaps: Seq<Vec<Entity>>, i: int) -> Seq<Entity> {
    if 0 <= i < overlaps.len() {
        overlaps[i]@
    } else {
        Seq::empty()
    }
}

/// One push away from `center` for each of `bodies`, in their order.
pub open spec fn pushes(center: Vec3, bodies: Seq<Entity>) -> Seq<Impulse> {
    Seq::new(bodies.len(), |j: int| Impulse { body: bodies[j], center })
}

/// The pushes of one frame: for each blast in order, one for each body that
/// overlaps it.
pub open spec fn impulses_of(blasts: Seq<Blast>, overlaps: Seq<Vec<Entity>>) -> Seq<Impulse>
    decreases blasts.len(),
{
    if blasts.len() == 0 {
        Seq::empty()
    } else {
        impulses_of(blasts.drop_last(), overlaps) + pushes(
            blasts.last().position,
            bodies_of(overlaps, blasts.len() - 1),
        )
    }
}

/// Whether `player` overlaps one of the first `n` blasts.
pub open spec fn strikes(n: int, overlaps: Seq<Vec<Entity>>, player: Entity) -> bool {
    exists|i: int| 0 <= i < n && #[trigger] bodies_of(overlaps, i).contains(player)
}

/// Consumes the queued rocket events: each adds a fresh blast at its point to
/// the live blasts, behind those already there, and the queue is left empty.
pub fn do_rocket(event_listener: &mut Vec<ShotRocket>, blasts: &mut Vec<Blast>)
    ensures
        final(event_listener)@.len() == 0,
        final(blasts)@ == old(blasts)@ + spawned_blasts(old(event_listener)@),
{
    let mut i: usize = 0;
    while i < event_listener.len()
        invariant
            i <= event_listener.len(),
            event_listener@ == old(event_listener)@,
            blasts@ == old(blasts)@ + spawned_blasts(old(event_listener)@.take(i as int)),
        decreases event_listener.len() - i,
    {
        let ShotRocket(position) = event_listener[i];
        blasts.push(Blast::new(position));
        i += 1;
    }
    assert(old(event_listener)@.take(i as int) == old(event_listener)@);
    event_listener.clear();
}

/// One frame of the live blasts.
///
/// Every blast is aged by `delta_ns`. One whose time has run out is reported
/// in `expired` and leaves `blasts`; the others stay, aged, in their order.
/// Every blast that entered the frame, also one that runs out in it, pushes
/// each body of its list in `overlaps` (the dynamic bodies found overlapping
/// it, list `i` for blast `i`) once. If `player` is among the pushed bodies the
/// grounded flag is cleared; otherwise it is left as it was.
pub fn handle_rockets(
    blasts: &mut Vec<Blast>,
    delta_ns: u64,
    overlaps: &Vec<Vec<Entity>>,
    player: Entity,
    is_grounded: &mut Grounded,
) -> (frame: RocketFrame)
    ensures
        final(blasts)@ == survivors(old(blasts)@, delta_ns),
        frame.expired@.len() == old(blasts)@.len(),
        forall|i: int|
            0 <= i < old(blasts)@.len() ==> frame.expired@[i] == (#[trigger] old(blasts)@[i]).ticked(
                delta_ns,
            ).finished(),
        frame.impulses@ == impulses_of(old(blasts)@, overlaps@),
        frame.player_struck == strikes(old(blasts)@.len() as int, overlaps@, player),
        final(is_grounded).0 == (old(is_grounded).0 && !frame.player_struck),
{
    let mut kept: Vec<Blast> = Vec::new();
    let mut impulses: Vec<Impulse> = Vec::new();
    let mut expired: Vec<bool> = Vec::new();
    let mut player_struck = false;
    let mut i: usize = 0;
    while i < blasts.len()
        invariant
            i <= blasts.len(),
            blasts@ == old(blasts)@,
            kept@ == survivors(old(blasts)@.take(i as int), delta_ns),
            expired@.len() == i,
            forall|k: int|
                0 <= k < i ==> expired@[k] == (#[trigger] old(blasts)@[k]).ticked(
                    delta_ns,
                ).finished(),
            impulses@ == impulses_of(old(blasts)@.take(i as int), overlaps@),
            player_struck == strikes(i as int, overlaps@, player),
        decreases blasts.len() - i,
    {
        let ghost before = old(blasts)@.take(i as int);
        let ghost upto = old(blasts)@.take(i as int + 1);
        assert(upto.drop_last() == before);
        assert(upto.last() == old(blasts)@[i as int]);
        let mut blast = blasts[i];
        let center = blast.position;
        let finished = blast.tick(delta_ns);
        expired.push(finished);
        if !finished {
            kept.push(blast);
        }
        if i < overlaps.len() {
            let bodies = &overlaps[i];
            let ghost pushed = impulses@;
            let mut j: usize = 0;
            while j < bodies.len()
                invariant
                    j <= bodies.len(),
                    impulses@ == pushed + pushes(center, bodies@.take(j as int)),
                decreases bodies.len() - j,
            {
                impulses.push(Impulse { body: bodies[j], center });
                assert(bodies@.take(j as int + 1) == bodies@.take(j as int).push(bodies@[j as int]));
                j += 1;
            }
            assert(bodies@.take(j as int) == bodies@);
            if contains_entity(bodies, player) {
                player_struck = true;
            }
        }
        assert(bodies_of(overlaps@, i as int).len() == 0 ==> pushes(
            center,
            bodies_of(overlaps@, i as int),
        ) == Seq::<Impulse>::empty());
        assert(strikes(i as int + 1, overlaps@, player) == (strikes(i as int, overlaps@, player)
            || bodies_of(overlaps@, i as int).contains(player)));
        i += 1;
    }
    assert(old(blasts)@.take(i as int) == old(blasts)@);
    if player_struck {
        is_grounded.0 = false;
    }
    *blasts = kept;
    RocketFrame { impulses, expired, player_struck }
}

/// The time that a run of frames takes, in nanoseconds.
pub open spec fn total_ns(deltas: Seq<u64>) -> int
    decreases deltas.len(),
{
    if deltas.len() == 0 {
        0
    } else {
        total_ns(deltas.drop_last()) + deltas.last()
    }
}

/// The live blasts after a run of frames, each handled as [`handle_rockets`]
/// handles it, when no blast is added in between.
pub open spec fn after_frames(blasts: Seq<Blast>, deltas: Seq<u64>) -> Seq<Blast>
    decreases deltas.len(),
{
    if deltas.len() == 0 {
        blasts
    } else {
        survivors(after_frames(blasts, deltas.drop_last()), deltas.last())
    }
}

proof fn lemma_survivors_age(blasts: Seq<Blast>, delta_ns: u64, lower: int)
    requires
        forall|i: int| 0 <= i < blasts.len() ==> (#[trigger] blasts[i]).elapsed_ns >= lower,
    ensures
        forall|j: int|
            0 <= j < survivors(blasts, delta_ns).len() ==> {
                &&& (#[trigger] survivors(blasts, delta_ns)[j]).elapsed_ns >= lower + delta_ns
                &&& survivors(blasts, delta_ns)[j].elapsed_ns < BLAST_DURATION_NS
            },
    decreases blasts.len(),
{
    if blasts.len() > 0 {
        lemma_survivors_age(blasts.drop_last(), delta_ns, lower);
        let rest = survivors(blasts.drop_last(), delta_ns);
        let aged = blasts.last().ticked(delta_ns);
        assert(blasts[blasts.len() - 1].elapsed_ns >= lower);
        assert forall|j: int| 0 <= j < survivors(blasts, delta_ns).len() implies {
            &&& (#[trigger] survivors(blasts, delta_ns)[j]).elapsed_ns >= lower + delta_ns
            &&& survivors(blasts, delta_ns)[j].elapsed_ns < BLAST_DURATION_NS
        } by {
            if j < rest.len() {
                assert(survivors(blasts, delta_ns)[j] == rest[j]);
            } else {
                assert(survivors(blasts, delta_ns)[j] == aged);
            }
        }
    }
}

proof fn lemma_after_frames_age(blasts: Seq<Blast>, deltas: Seq<u64>)
    requires
        deltas.len() > 0,
    ensures
        forall|j: int|
            0 <= j < after_frames(blasts, deltas).len() ==> {
                &&& (#[trigger] after_frames(blasts, deltas)[j]).elapsed_ns >= total_ns(deltas)
                &&& after_frames(blasts, deltas)[j].elapsed_ns < BLAST_DURATION_NS
            },
    decreases deltas.len(),
{
    let earlier = deltas.drop_last();
    if earlier.len() == 0 {
        assert(total_ns(earlier) == 0);
        assert(after_frames(blasts, earlier) == blasts);
        lemma_survivors_age(blasts, deltas.last(), 0);
    } else {
        lemma_after_frames_age(blasts, earlier);
        lemma_survivors_age(after_frames(blasts, earlier), deltas.last(), total_ns(earlier));
    }
}

/// No blast outlives its duration: once the frames handled add up to
/// [`BLAST_DURATION_NS`] or more, every blast that was live before them is
/// gone, whatever it was and however the time was cut into frames.
pub proof fn law_blast_gone_after_duration(blasts: Seq<Blast>, deltas: Seq<u64>)
    requires
        total_ns(deltas) >= BLAST_DURATION_NS,
    ensures
        after_frames(blasts, deltas).len() == 0,
{
    if deltas.len() > 0 {
        lemma_after_frames_age(blasts, deltas);
        if after_frames(blasts, deltas).len() > 0 {
            assert(after_frames(blasts, deltas)[0].elapsed_ns < BLAST_DURATION_NS);
        }
    }
}

/// A fresh blast stays live, and has burned for exactly the time handled,
/// as long as the frames add up to less than [`BLAST_DURATION_NS`].
pub proof fn law_blast_lives_within_duration(position: Vec3, deltas: Seq<u64>)
    requires
        total_ns(deltas) < BLAST_DURATION_NS,
    ensures
        after_frames(seq![Blast::fresh(position)], deltas) == seq![
            Blast { position, elapsed_ns: total_ns(deltas) as u64 },
        ],
    decreases deltas.len(),
{
    if deltas.len() > 0 {
        let earlier = deltas.drop_last();
        lemma_total_ns_nonnegative(earlier);
        law_blast_lives_within_duration(position, earlier);
        let blast = Blast { position, elapsed_ns: total_ns(earlier) as u64 };
        let aged = blast.ticked(deltas.last());
        assert(seq![blast].drop_last() == Seq::<Blast>::empty());
        assert(seq![blast].last() == blast);
        assert(survivors(Seq::<Blast>::empty(), deltas.last()) == Seq::<Blast>::empty());
        assert(survivors(seq![blast], deltas.last()) == Seq::<Blast>::empty().push(aged));
    }
}

proof fn lemma_total_ns_nonnegative(deltas: Seq<u64>)
    ensures
        total_ns(deltas) >= 0,
    decreases deltas.len(),
{
    if deltas.len() > 0 {
        lemma_total_ns_nonnegative(deltas.drop_last());
    }
}

} // verus!
