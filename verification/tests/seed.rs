use farm_defense::entity::{EntityId, IdSource};
use farm_defense::geometry::GridPoint;
use farm_defense::physics::Motion;
use farm_defense::plant::{PlantType, SowPlantEvent};
use farm_defense::player::ThrowSeedEvent;
use farm_defense::seed::{
    copy_points, create_seeds, move_seeds, seed, tail_points, SeedEntity, SeedPath,
};
use farm_defense::smoke::{spawn_smoke, SpawnSmokeEvent};
use farm_defense::particle::{spawn_stars, ParticleKind};

fn flying(id: u64, at: GridPoint, path: Vec<GridPoint>) -> SeedEntity {
    seed(EntityId(id), PlantType::Gnome, SeedPath { path }, at)
}

#[test]
fn points_are_copied() {
    let points = vec![GridPoint::new(1, 2), GridPoint::new(3, 4), GridPoint::new(5, 6)];
    assert_eq!(copy_points(&points), points);
    assert_eq!(tail_points(&points), vec![GridPoint::new(3, 4), GridPoint::new(5, 6)]);
    assert_eq!(tail_points(&vec![GridPoint::new(1, 2)]), vec![]);
    assert_eq!(tail_points(&vec![]), vec![]);
    assert_eq!(copy_points(&vec![]), vec![]);
}

#[test]
fn seed_starts_at_rest() {
    let s = flying(1, GridPoint::new(0, 0), vec![GridPoint::new(9, 9)]);
    assert_eq!(s.id, EntityId(1));
    assert_eq!(s.plant_type, PlantType::Gnome);
    assert_eq!(s.position, GridPoint::new(0, 0));
    assert_eq!(s.motion, Motion::Still);
    assert_eq!(s.path.path, vec![GridPoint::new(9, 9)]);
}

#[test]
fn throws_put_seeds_at_the_start_of_their_path() {
    let mut seeds = vec![];
    let mut ids = IdSource { next: 4 };
    let events = vec![
        ThrowSeedEvent {
            from_player: true,
            path: vec![GridPoint::new(0, 0), GridPoint::new(10, 0), GridPoint::new(20, 0)],
            seed_type: PlantType::Daisy,
        },
        ThrowSeedEvent { from_player: true, path: vec![], seed_type: PlantType::Daisy },
        ThrowSeedEvent {
            from_player: false,
            path: vec![GridPoint::new(5, 5)],
            seed_type: PlantType::Gnome,
        },
    ];
    create_seeds(&mut seeds, &mut ids, &events);
    assert_eq!(seeds.len(), 2);
    assert_eq!(seeds[0].id, EntityId(4));
    assert_eq!(seeds[0].position, GridPoint::new(0, 0));
    assert_eq!(seeds[0].path.path, vec![GridPoint::new(10, 0), GridPoint::new(20, 0)]);
    assert_eq!(seeds[0].plant_type, PlantType::Daisy);
    assert_eq!(seeds[0].motion, Motion::Still);
    assert_eq!(seeds[1].id, EntityId(5));
    assert_eq!(seeds[1].position, GridPoint::new(5, 5));
    assert!(seeds[1].path.path.is_empty());
    assert_eq!(seeds[1].plant_type, PlantType::Gnome);
    assert_eq!(ids.next, 6);
}

#[test]
fn seed_flies_towards_its_next_waypoint() {
    let mut seeds = vec![flying(1, GridPoint::new(0, 0), vec![GridPoint::new(5, 0)])];
    let moves = move_seeds(&mut seeds);
    // 5 away is not yet there
    assert_eq!(seeds.len(), 1);
    assert_eq!(seeds[0].motion, Motion::Toward { target: GridPoint::new(5, 0), speed: 300 });
    assert_eq!(seeds[0].path.path, vec![GridPoint::new(5, 0)]);
    assert_eq!(seeds[0].id, EntityId(1));
    assert!(moves.sow_events.is_empty());
    assert!(moves.throw_events.is_empty());
}

#[test]
fn seed_at_its_last_waypoint_is_sown_where_it_is() {
    let mut seeds = vec![flying(1, GridPoint::new(1, 0), vec![GridPoint::new(5, 0)])];
    let moves = move_seeds(&mut seeds);
    assert!(seeds.is_empty());
    assert_eq!(
        moves.sow_events,
        vec![SowPlantEvent { position: GridPoint::new(1, 0), seed_type: PlantType::Gnome }]
    );
    assert!(moves.throw_events.is_empty());
}

#[test]
fn seed_at_a_relay_is_thrown_on() {
    let mut seeds = vec![flying(
        1,
        GridPoint::new(3, 3),
        vec![GridPoint::new(5, 0), GridPoint::new(50, 0), GridPoint::new(90, 0)],
    )];
    let moves = move_seeds(&mut seeds);
    assert!(seeds.is_empty());
    assert!(moves.sow_events.is_empty());
    assert_eq!(moves.throw_events.len(), 1);
    assert!(!moves.throw_events[0].from_player);
    assert_eq!(moves.throw_events[0].seed_type, PlantType::Gnome);
    assert_eq!(
        moves.throw_events[0].path,
        vec![GridPoint::new(5, 0), GridPoint::new(50, 0), GridPoint::new(90, 0)]
    );
    // the throw puts the seed on the relay, with the rest of the path before it
    let mut ids = IdSource { next: 2 };
    create_seeds(&mut seeds, &mut ids, &moves.throw_events);
    assert_eq!(seeds[0].position, GridPoint::new(5, 0));
    assert_eq!(seeds[0].path.path, vec![GridPoint::new(50, 0), GridPoint::new(90, 0)]);
}

#[test]
fn seed_without_a_path_is_sown_at_once() {
    let mut seeds = vec![
        flying(1, GridPoint::new(7, 7), vec![]),
        flying(2, GridPoint::new(0, 0), vec![GridPoint::new(100, 0)]),
        flying(3, GridPoint::new(8, 8), vec![]),
    ];
    let moves = move_seeds(&mut seeds);
    assert_eq!(seeds.iter().map(|s| s.id).collect::<Vec<_>>(), vec![EntityId(2)]);
    assert_eq!(
        moves.sow_events,
        vec![
            SowPlantEvent { position: GridPoint::new(7, 7), seed_type: PlantType::Gnome },
            SowPlantEvent { position: GridPoint::new(8, 8), seed_type: PlantType::Gnome },
        ]
    );
}

#[test]
fn smoke_and_stars_appear_where_asked() {
    let mut particles = vec![];
    let mut ids = IdSource { next: 0 };
    spawn_smoke(&mut particles, &mut ids, &vec![SpawnSmokeEvent(GridPoint::new(1, 1))]);
    spawn_stars(&mut particles, &mut ids, &vec![GridPoint::new(2, 2), GridPoint::new(3, 3)]);
    assert_eq!(particles.len(), 3);
    assert_eq!(particles[0].kind, ParticleKind::Smoke);
    assert_eq!(particles[0].motion, Motion::Along { dx: 0, dy: 15 });
    assert_eq!(particles[0].lifespan.0.duration(), 500_000);
    assert_eq!(particles[1].kind, ParticleKind::Star);
    assert_eq!(particles[1].motion, Motion::Still);
    assert_eq!(particles[1].lifespan.0.duration(), 250_000);
    assert_eq!(particles[2].position, GridPoint::new(3, 3));
    assert_eq!(
        particles.iter().map(|p| p.id).collect::<Vec<_>>(),
        vec![EntityId(0), EntityId(1), EntityId(2)]
    );
    assert_eq!(ids.next, 3);
}
