use bevy::ecs::entity::Entity;
use bevy::math::Vec3;
use fps_sandbox::player::{Grounded, ShotRocket};
use fps_sandbox::rocket::{do_rocket, handle_rockets, Blast, BLAST_DURATION_NS};

const MS: u64 = 1_000_000;

fn player() -> Entity {
    Entity::from_raw(1)
}

fn one_blast() -> Vec<Blast> {
    vec![Blast::new(Vec3::new(1.0, 0.0, 2.0))]
}

#[test]
fn blast_lives_a_quarter_second() {
    assert_eq!(BLAST_DURATION_NS, 250_000_000);
}

#[test]
fn new_blast_has_not_burned() {
    let blast = Blast::new(Vec3::new(3.0, 4.0, 5.0));
    assert_eq!(blast.position, Vec3::new(3.0, 4.0, 5.0));
    assert_eq!(blast.elapsed_ns, 0);
}

#[test]
fn tick_adds_the_frame_time() {
    let mut blast = Blast::new(Vec3::ZERO);
    assert!(!blast.tick(100 * MS));
    assert_eq!(blast.elapsed_ns, 100_000_000);
    assert!(!blast.tick(49 * MS));
    assert_eq!(blast.elapsed_ns, 149_000_000);
    assert_eq!(blast.position, Vec3::ZERO);
}

#[test]
fn tick_of_no_time_changes_nothing() {
    let mut blast = Blast { position: Vec3::X, elapsed_ns: 7 };
    assert!(!blast.tick(0));
    assert_eq!(blast.elapsed_ns, 7);
}

#[test]
fn tick_finishes_exactly_at_the_duration() {
    let mut blast = Blast::new(Vec3::ZERO);
    assert!(!blast.tick(249_999_999));
    assert_eq!(blast.elapsed_ns, 249_999_999);
    assert!(blast.tick(1));
    assert_eq!(blast.elapsed_ns, 250_000_000);
}

#[test]
fn tick_stops_at_the_duration() {
    let mut blast = Blast::new(Vec3::ZERO);
    assert!(blast.tick(900 * MS));
    assert_eq!(blast.elapsed_ns, 250_000_000);
    assert!(blast.tick(900 * MS));
    assert_eq!(blast.elapsed_ns, 250_000_000);
}

#[test]
fn tick_takes_the_longest_frame() {
    let mut blast = Blast { position: Vec3::ZERO, elapsed_ns: 200 * MS };
    assert!(blast.tick(u64::MAX));
    assert_eq!(blast.elapsed_ns, 250_000_000);
}

#[test]
fn tick_of_an_overdue_blast_finishes_it() {
    let mut blast = Blast { position: Vec3::ZERO, elapsed_ns: u64::MAX };
    assert!(blast.tick(0));
    assert_eq!(blast.elapsed_ns, 250_000_000);
}

#[test]
fn do_rocket_places_a_blast_at_each_hit() {
    let mut events =
        vec![ShotRocket(Vec3::new(1.0, 0.0, 0.0)), ShotRocket(Vec3::new(0.0, 2.0, 0.0))];
    let mut blasts = Vec::new();
    do_rocket(&mut events, &mut blasts);
    assert!(events.is_empty());
    assert_eq!(blasts.len(), 2);
    assert_eq!(blasts[0].position, Vec3::new(1.0, 0.0, 0.0));
    assert_eq!(blasts[0].elapsed_ns, 0);
    assert_eq!(blasts[1].position, Vec3::new(0.0, 2.0, 0.0));
    assert_eq!(blasts[1].elapsed_ns, 0);
}

#[test]
fn do_rocket_appends_behind_live_blasts() {
    let mut blasts = vec![Blast { position: Vec3::Y, elapsed_ns: 5 * MS }];
    let mut events = vec![ShotRocket(Vec3::Z)];
    do_rocket(&mut events, &mut blasts);
    assert_eq!(blasts.len(), 2);
    assert_eq!(blasts[0].position, Vec3::Y);
    assert_eq!(blasts[0].elapsed_ns, 5_000_000);
    assert_eq!(blasts[1].position, Vec3::Z);
    assert_eq!(blasts[1].elapsed_ns, 0);
}

#[test]
fn do_rocket_consumes_each_event_once() {
    let mut blasts = Vec::new();
    let mut events = vec![ShotRocket(Vec3::Z)];
    do_rocket(&mut events, &mut blasts);
    do_rocket(&mut events, &mut blasts);
    assert_eq!(blasts.len(), 1);
}

#[test]
fn do_rocket_without_events_does_nothing() {
    let mut blasts = one_blast();
    let mut events = Vec::new();
    do_rocket(&mut events, &mut blasts);
    assert_eq!(blasts.len(), 1);
}

#[test]
fn frame_ages_every_blast() {
    let mut blasts = vec![
        Blast { position: Vec3::X, elapsed_ns: 0 },
        Blast { position: Vec3::Y, elapsed_ns: 100 * MS },
    ];
    let mut grounded = Grounded(true);
    let frame = handle_rockets(&mut blasts, 16 * MS, &Vec::new(), player(), &mut grounded);
    assert_eq!(frame.expired, vec![false, false]);
    assert_eq!(blasts.len(), 2);
    assert_eq!(blasts[0].position, Vec3::X);
    assert_eq!(blasts[0].elapsed_ns, 16_000_000);
    assert_eq!(blasts[1].position, Vec3::Y);
    assert_eq!(blasts[1].elapsed_ns, 116_000_000);
}

#[test]
fn frame_removes_the_blasts_that_ran_out() {
    let mut blasts = vec![
        Blast { position: Vec3::X, elapsed_ns: 240 * MS },
        Blast { position: Vec3::Y, elapsed_ns: 100 * MS },
        Blast { position: Vec3::Z, elapsed_ns: 234 * MS },
        Blast { position: Vec3::ONE, elapsed_ns: 233 * MS },
    ];
    let mut grounded = Grounded(true);
    let frame = handle_rockets(&mut blasts, 16 * MS, &Vec::new(), player(), &mut grounded);
    assert_eq!(frame.expired, vec![true, false, true, false]);
    assert_eq!(blasts.len(), 2);
    assert_eq!(blasts[0].position, Vec3::Y);
    assert_eq!(blasts[0].elapsed_ns, 116_000_000);
    assert_eq!(blasts[1].position, Vec3::ONE);
    assert_eq!(blasts[1].elapsed_ns, 249_000_000);
}

#[test]
fn frame_without_blasts_asks_for_nothing() {
    let mut blasts = Vec::new();
    let mut grounded = Grounded(true);
    let overlaps = vec![vec![player()]];
    let frame = handle_rockets(&mut blasts, 16 * MS, &overlaps, player(), &mut grounded);
    assert!(frame.impulses.is_empty());
    assert!(frame.expired.is_empty());
    assert!(!frame.player_struck);
    assert!(grounded.0);
    assert!(blasts.is_empty());
}

#[test]
fn blast_is_gone_once_a_quarter_second_has_passed() {
    let mut blasts = one_blast();
    let mut grounded = Grounded(true);
    let delta = 16_666_667;
    for frame in 1..=14 {
        let out = handle_rockets(&mut blasts, delta, &Vec::new(), player(), &mut grounded);
        assert_eq!(out.expired, vec![false]);
        assert_eq!(blasts.len(), 1);
        assert_eq!(blasts[0].elapsed_ns, frame * delta);
    }
    let out = handle_rockets(&mut blasts, delta, &Vec::new(), player(), &mut grounded);
    assert_eq!(out.expired, vec![true]);
    assert!(blasts.is_empty());
    let out = handle_rockets(&mut blasts, delta, &Vec::new(), player(), &mut grounded);
    assert!(out.expired.is_empty());
    assert!(blasts.is_empty());
}

#[test]
fn blast_is_gone_after_one_long_frame() {
    let mut blasts = one_blast();
    let mut grounded = Grounded(true);
    let out = handle_rockets(&mut blasts, 250 * MS, &Vec::new(), player(), &mut grounded);
    assert_eq!(out.expired, vec![true]);
    assert!(blasts.is_empty());
}

#[test]
fn blast_is_live_just_before_its_time_is_up() {
    let mut blasts = one_blast();
    let mut grounded = Grounded(true);
    handle_rockets(&mut blasts, 125 * MS, &Vec::new(), player(), &mut grounded);
    handle_rockets(&mut blasts, 124_999_999, &Vec::new(), player(), &mut grounded);
    assert_eq!(blasts.len(), 1);
    assert_eq!(blasts[0].elapsed_ns, 249_999_999);
    handle_rockets(&mut blasts, 1, &Vec::new(), player(), &mut grounded);
    assert!(blasts.is_empty());
}

#[test]
fn each_overlapping_body_is_pushed_once_a_frame() {
    let mut blasts = one_blast();
    let mut grounded = Grounded(false);
    let prop = Entity::from_raw(8);
    let other = Entity::from_raw(9);
    let overlaps = vec![vec![prop, other]];
    for _ in 0..3 {
        let frame = handle_rockets(&mut blasts, 16 * MS, &overlaps, player(), &mut grounded);
        assert_eq!(frame.impulses.len(), 2);
        assert_eq!(frame.impulses[0].body, prop);
        assert_eq!(frame.impulses[0].center, Vec3::new(1.0, 0.0, 2.0));
        assert_eq!(frame.impulses[1].body, other);
        assert_eq!(frame.impulses[1].center, Vec3::new(1.0, 0.0, 2.0));
        assert!(!frame.player_struck);
    }
}

#[test]
fn blast_still_pushes_in_the_frame_it_runs_out() {
    let mut blasts = vec![Blast { position: Vec3::Y, elapsed_ns: 249 * MS }];
    let mut grounded = Grounded(false);
    let prop = Entity::from_raw(8);
    let frame = handle_rockets(&mut blasts, 16 * MS, &vec![vec![prop]], player(), &mut grounded);
    assert_eq!(frame.expired, vec![true]);
    assert!(blasts.is_empty());
    assert_eq!(frame.impulses.len(), 1);
    assert_eq!(frame.impulses[0].body, prop);
    assert_eq!(frame.impulses[0].center, Vec3::Y);
}

#[test]
fn pushes_come_blast_by_blast() {
    let mut blasts = vec![
        Blast::new(Vec3::X),
        Blast { position: Vec3::Y, elapsed_ns: 249 * MS },
        Blast::new(Vec3::Z),
    ];
    let mut grounded = Grounded(false);
    let a = Entity::from_raw(10);
    let b = Entity::from_raw(11);
    let overlaps = vec![vec![a, b], vec![b], vec![], vec![a]];
    let frame = handle_rockets(&mut blasts, 16 * MS, &overlaps, player(), &mut grounded);
    let got: Vec<(Entity, Vec3)> = frame.impulses.iter().map(|i| (i.body, i.center)).collect();
    assert_eq!(got, vec![(a, Vec3::X), (b, Vec3::X), (b, Vec3::Y)]);
}

#[test]
fn body_in_two_blasts_is_pushed_by_both() {
    let mut blasts = vec![Blast::new(Vec3::X), Blast::new(Vec3::NEG_X)];
    let mut grounded = Grounded(false);
    let prop = Entity::from_raw(10);
    let overlaps = vec![vec![prop], vec![prop]];
    let frame = handle_rockets(&mut blasts, 16 * MS, &overlaps, player(), &mut grounded);
    let got: Vec<(Entity, Vec3)> = frame.impulses.iter().map(|i| (i.body, i.center)).collect();
    assert_eq!(got, vec![(prop, Vec3::X), (prop, Vec3::NEG_X)]);
}

#[test]
fn blast_without_an_overlap_list_pushes_nothing() {
    let mut blasts = vec![Blast::new(Vec3::X), Blast::new(Vec3::Y)];
    let mut grounded = Grounded(true);
    let overlaps = vec![vec![Entity::from_raw(10)]];
    let frame = handle_rockets(&mut blasts, 16 * MS, &overlaps, player(), &mut grounded);
    assert_eq!(frame.impulses.len(), 1);
    assert_eq!(frame.impulses[0].center, Vec3::X);
    assert_eq!(frame.expired, vec![false, false]);
}

#[test]
fn struck_player_is_pushed_and_goes_airborne() {
    let mut blasts = one_blast();
    let mut grounded = Grounded(true);
    let overlaps = vec![vec![Entity::from_raw(8), player()]];
    let frame = handle_rockets(&mut blasts, 16 * MS, &overlaps, player(), &mut grounded);
    assert!(frame.player_struck);
    assert!(!grounded.0);
    assert_eq!(frame.impulses.len(), 2);
    assert_eq!(frame.impulses[1].body, player());
}

#[test]
fn player_outside_every_blast_keeps_the_flag() {
    for before in [true, false] {
        let mut blasts = one_blast();
        let mut grounded = Grounded(before);
        let overlaps = vec![vec![Entity::from_raw(8)]];
        let frame = handle_rockets(&mut blasts, 16 * MS, &overlaps, player(), &mut grounded);
        assert!(!frame.player_struck);
        assert_eq!(grounded.0, before);
    }
}

#[test]
fn struck_player_in_the_air_stays_airborne() {
    let mut blasts = one_blast();
    let mut grounded = Grounded(false);
    let frame = handle_rockets(&mut blasts, 16 * MS, &vec![vec![player()]], player(), &mut grounded);
    assert!(frame.player_struck);
    assert!(!grounded.0);
}

#[test]
fn player_in_a_list_without_a_blast_is_not_struck() {
    let mut blasts = one_blast();
    let mut grounded = Grounded(true);
    let overlaps = vec![vec![], vec![player()]];
    let frame = handle_rockets(&mut blasts, 16 * MS, &overlaps, player(), &mut grounded);
    assert!(!frame.player_struck);
    assert!(grounded.0);
    assert!(frame.impulses.is_empty());
}

#[test]
fn player_is_told_apart_by_generation() {
    let mut blasts = one_blast();
    let mut grounded = Grounded(true);
    let reborn = Entity::from_bits((2u64 << 32) | 1);
    assert_eq!(reborn.index(), player().index());
    let frame = handle_rockets(&mut blasts, 16 * MS, &vec![vec![reborn]], player(), &mut grounded);
    assert!(!frame.player_struck);
    assert!(grounded.0);
}
