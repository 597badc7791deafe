use farm_defense::entity::EntityId;
use farm_defense::geometry::GridPoint;
use farm_defense::lifespan::{tick_lifespans, LifespanTimer};
use farm_defense::particle::{particle, ParticleKind};
use farm_defense::plant::{fireball, Cardinal};
use farm_defense::timer::{Timer, TimerMode};

#[test]
fn timer_once_finishes_when_the_time_is_up() {
    let mut t = Timer::new(1_000, TimerMode::Once);
    assert!(!t.finished());
    t.tick(999);
    assert!(!t.finished());
    assert!(!t.just_finished());
    assert_eq!(t.elapsed(), 999);
    t.tick(1);
    assert!(t.finished());
    assert!(t.just_finished());
    assert_eq!(t.elapsed(), 1_000);
}

#[test]
fn timer_once_stays_finished() {
    let mut t = Timer::new(1_000, TimerMode::Once);
    t.tick(5_000);
    assert!(t.finished());
    assert!(t.just_finished());
    assert_eq!(t.elapsed(), 1_000);
    t.tick(1);
    assert!(t.finished());
    assert!(!t.just_finished());
    assert_eq!(t.elapsed(), 1_000);
}

#[test]
fn timer_repeating_starts_over() {
    let mut t = Timer::new(1_000, TimerMode::Repeating);
    t.tick(2_500);
    assert!(t.finished());
    assert!(t.just_finished());
    assert_eq!(t.times_finished_this_tick, 2);
    assert_eq!(t.elapsed(), 500);
    t.tick(100);
    assert!(!t.finished());
    assert!(!t.just_finished());
    assert_eq!(t.elapsed(), 600);
    t.tick(400);
    assert!(t.just_finished());
    assert_eq!(t.times_finished_this_tick, 1);
    assert_eq!(t.elapsed(), 0);
}

#[test]
fn timer_of_no_duration_is_up_at_once() {
    let mut t = Timer::new(0, TimerMode::Once);
    t.tick(0);
    assert!(t.finished());
    let mut t = Timer::new(0, TimerMode::Repeating);
    t.tick(7);
    assert!(t.finished());
    assert_eq!(t.times_finished_this_tick, u32::MAX);
    assert_eq!(t.elapsed(), 0);
}

#[test]
fn timer_does_not_overflow() {
    let mut t = Timer::new(u64::MAX, TimerMode::Once);
    t.tick(u64::MAX - 1);
    assert!(!t.finished());
    t.tick(u64::MAX);
    assert!(t.finished());
    assert_eq!(t.elapsed(), u64::MAX);
}

#[test]
fn timer_from_seconds_counts_microseconds() {
    let t = Timer::from_seconds(3, TimerMode::Once);
    assert_eq!(t.duration(), 3_000_000);
    assert_eq!(t.elapsed(), 0);
}

#[test]
fn lifespans_remove_what_ran_out() {
    let at = GridPoint::new(0, 0);
    let mut fireballs = vec![
        fireball(EntityId(1), EntityId(9), at, Cardinal::East),
        fireball(EntityId(2), EntityId(9), at, Cardinal::West),
    ];
    fireballs[1].lifespan = LifespanTimer::new(2_000_000);
    let mut particles = vec![
        particle(EntityId(3), ParticleKind::Star, at),
        particle(EntityId(4), ParticleKind::Coin, at),
        particle(EntityId(5), ParticleKind::Smoke, at),
    ];
    tick_lifespans(&mut fireballs, &mut particles, 500_000);
    // fireball 1 lasts a second, the star a quarter, the smoke half a second
    assert_eq!(fireballs.iter().map(|f| f.id).collect::<Vec<_>>(), vec![EntityId(1), EntityId(2)]);
    assert_eq!(fireballs[0].lifespan.0.elapsed(), 500_000);
    assert_eq!(particles.iter().map(|p| p.id).collect::<Vec<_>>(), vec![EntityId(4)]);
    tick_lifespans(&mut fireballs, &mut particles, 500_000);
    assert_eq!(fireballs.iter().map(|f| f.id).collect::<Vec<_>>(), vec![EntityId(2)]);
    assert!(particles.is_empty());
}
