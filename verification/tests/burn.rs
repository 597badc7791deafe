use farm_defense::burn::{any_active_fireball, burn_stuff, quench, scorch};
use farm_defense::enemy::enemy;
use farm_defense::entity::EntityId;
use farm_defense::geometry::GridPoint;
use farm_defense::physics::{CollisionStarted, GameLayer};
use farm_defense::plant::{fireball, Cardinal, FIREBALL_DAMAGE};
use farm_defense::smoke::SpawnSmokeEvent;
use farm_defense::sound::{SoundEffect, SoundRequest};

#[test]
fn fireball_burns_the_rat_it_meets_and_goes_out() {
    let mut fireballs = vec![
        fireball(EntityId(10), EntityId(1), GridPoint::new(0, 0), Cardinal::East),
        fireball(EntityId(11), EntityId(1), GridPoint::new(0, 0), Cardinal::West),
    ];
    let mut enemies =
        vec![enemy(EntityId(20), GridPoint::new(50, 0)), enemy(EntityId(21), GridPoint::new(9, 9))];
    let outcome = burn_stuff(
        &mut fireballs,
        &mut enemies,
        &vec![CollisionStarted(EntityId(10), EntityId(20))],
    );
    assert_eq!(FIREBALL_DAMAGE, 2);
    assert_eq!(enemies[0].health.current(), 3);
    assert_eq!(enemies[1].health.current(), 5);
    assert_eq!(fireballs.iter().map(|f| f.id).collect::<Vec<_>>(), vec![EntityId(11)]);
    assert_eq!(outcome.smoke_events, vec![SpawnSmokeEvent(GridPoint::new(50, 0))]);
    assert_eq!(
        outcome.sounds,
        vec![SoundRequest { sound: SoundEffect::Burn, position: GridPoint::new(50, 0) }]
    );
}

#[test]
fn fireball_is_found_on_either_side_of_a_collision() {
    let mut fireballs =
        vec![fireball(EntityId(10), EntityId(1), GridPoint::new(0, 0), Cardinal::East)];
    let mut enemies = vec![enemy(EntityId(20), GridPoint::new(50, 0))];
    burn_stuff(&mut fireballs, &mut enemies, &vec![CollisionStarted(EntityId(20), EntityId(10))]);
    assert_eq!(enemies[0].health.current(), 3);
    assert!(fireballs.is_empty());
}

#[test]
fn fireball_hits_once() {
    let mut fireballs =
        vec![fireball(EntityId(10), EntityId(1), GridPoint::new(0, 0), Cardinal::East)];
    let mut enemies = vec![
        enemy(EntityId(20), GridPoint::new(50, 0)),
        enemy(EntityId(21), GridPoint::new(60, 0)),
    ];
    let outcome = burn_stuff(
        &mut fireballs,
        &mut enemies,
        &vec![
            CollisionStarted(EntityId(10), EntityId(20)),
            CollisionStarted(EntityId(10), EntityId(20)),
            CollisionStarted(EntityId(10), EntityId(21)),
            CollisionStarted(EntityId(21), EntityId(10)),
        ],
    );
    assert_eq!(enemies[0].health.current(), 3);
    assert_eq!(enemies[1].health.current(), 5);
    assert_eq!(outcome.smoke_events.len(), 1);
    assert!(fireballs.is_empty());
    // a later report of the same fireball finds nothing to burn with
    let outcome = burn_stuff(
        &mut fireballs,
        &mut enemies,
        &vec![CollisionStarted(EntityId(10), EntityId(20))],
    );
    assert_eq!(enemies[0].health.current(), 3);
    assert!(outcome.smoke_events.is_empty());
    assert!(outcome.sounds.is_empty());
}

#[test]
fn collisions_of_other_bodies_burn_nothing() {
    let mut fireballs =
        vec![fireball(EntityId(10), EntityId(1), GridPoint::new(0, 0), Cardinal::East)];
    let mut enemies =
        vec![enemy(EntityId(20), GridPoint::new(50, 0)), enemy(EntityId(21), GridPoint::new(9, 9))];
    let outcome = burn_stuff(
        &mut fireballs,
        &mut enemies,
        &vec![
            CollisionStarted(EntityId(20), EntityId(21)),
            CollisionStarted(EntityId(10), EntityId(99)),
            CollisionStarted(EntityId(98), EntityId(20)),
            CollisionStarted(EntityId(10), EntityId(10)),
        ],
    );
    assert_eq!(enemies[0].health.current(), 5);
    assert_eq!(enemies[1].health.current(), 5);
    assert_eq!(fireballs.len(), 1);
    assert!(fireballs[0].fireball.is_active());
    assert!(outcome.smoke_events.is_empty());
}

#[test]
fn two_fireballs_burn_one_rat_twice() {
    let mut fireballs = vec![
        fireball(EntityId(10), EntityId(1), GridPoint::new(0, 0), Cardinal::East),
        fireball(EntityId(11), EntityId(1), GridPoint::new(0, 0), Cardinal::West),
        fireball(EntityId(12), EntityId(1), GridPoint::new(0, 0), Cardinal::North),
    ];
    let mut enemies = vec![enemy(EntityId(20), GridPoint::new(50, 0))];
    let outcome = burn_stuff(
        &mut fireballs,
        &mut enemies,
        &vec![
            CollisionStarted(EntityId(10), EntityId(20)),
            CollisionStarted(EntityId(11), EntityId(20)),
            CollisionStarted(EntityId(20), EntityId(12)),
        ],
    );
    assert_eq!(enemies[0].health.current(), 0);
    assert!(fireballs.is_empty());
    assert_eq!(outcome.smoke_events.len(), 3);
}

#[test]
fn quench_and_scorch_touch_the_named_only() {
    let mut fireballs = vec![
        fireball(EntityId(10), EntityId(1), GridPoint::new(0, 0), Cardinal::East),
        fireball(EntityId(11), EntityId(1), GridPoint::new(0, 0), Cardinal::West),
    ];
    quench(&mut fireballs, EntityId(11));
    assert!(fireballs[0].fireball.is_active());
    assert!(!fireballs[1].fireball.is_active());
    assert!(any_active_fireball(&fireballs, EntityId(10)));
    assert!(!any_active_fireball(&fireballs, EntityId(11)));
    let mut enemies =
        vec![enemy(EntityId(20), GridPoint::new(50, 0)), enemy(EntityId(21), GridPoint::new(9, 9))];
    scorch(&mut enemies, EntityId(21));
    assert_eq!(enemies[0].health.current(), 5);
    assert_eq!(enemies[1].health.current(), 3);
}

#[test]
fn layers_say_who_meets_whom() {
    assert_eq!(GameLayer::default(), GameLayer::Default);
    assert_eq!(GameLayer::Default.to_bits(), 1);
    assert_eq!(GameLayer::Enemy.to_bits(), 2);
    assert_eq!(GameLayer::Plant.to_bits(), 4);
    assert_eq!(GameLayer::Fireball.to_bits(), 8);
    assert!(GameLayer::Fireball.interacts_with(&GameLayer::Enemy));
    assert!(!GameLayer::Fireball.interacts_with(&GameLayer::Plant));
    assert!(!GameLayer::Fireball.interacts_with(&GameLayer::Fireball));
    assert!(GameLayer::Enemy.interacts_with(&GameLayer::Fireball));
    assert!(GameLayer::Enemy.interacts_with(&GameLayer::Plant));
    assert!(GameLayer::Enemy.interacts_with(&GameLayer::Enemy));
    assert!(GameLayer::Plant.interacts_with(&GameLayer::Plant));
    assert!(GameLayer::Plant.interacts_with(&GameLayer::Enemy));
    assert!(!GameLayer::Plant.interacts_with(&GameLayer::Fireball));
    assert!(!GameLayer::Default.interacts_with(&GameLayer::Enemy));
}
