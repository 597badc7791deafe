use farm_defense::entity::{EntityId, IdSource};
use farm_defense::geometry::GridPoint;
use farm_defense::physics::Motion;
use farm_defense::plant::{
    damage_plants, fireball, grown_size, plant, plant_collision_check, plant_max_health,
    plant_radius, sow_plants, spew_fire, tick_growth, Cardinal, DamagePlantEvent, Fireball, Plant,
    PlantType, SeedSelection, SowPlantEvent, SpewFireEvent, DAISY_CHAIN_LENGTH,
    PINEAPPLE_MAX_GENERATION,
};
use farm_defense::sound::{SoundEffect, SoundRequest};

#[test]
fn plant_prices() {
    assert_eq!(PlantType::Daisy.price(), 1);
    assert_eq!(PlantType::Pineapple(0).price(), 2);
    assert_eq!(PlantType::Pineapple(2).price(), 2);
    assert_eq!(PlantType::Dragonfruit.price(), 3);
    assert_eq!(PlantType::Gnome.price(), 5);
}

#[test]
fn plant_names() {
    assert_eq!(PlantType::Daisy.name(), "Daisy");
    assert_eq!(PlantType::Pineapple(1).name(), "Pineapple");
    assert_eq!(PlantType::Dragonfruit.name(), "Dragonfruit");
    assert_eq!(PlantType::Gnome.name(), "Gnome");
}

#[test]
fn plant_statistics_by_kind() {
    assert_eq!(plant_max_health(PlantType::Daisy), 2);
    assert_eq!(plant_max_health(PlantType::Dragonfruit), 5);
    assert_eq!(plant_max_health(PlantType::Gnome), 10);
    assert_eq!(plant_radius(PlantType::Daisy), 30);
    assert_eq!(plant_radius(PlantType::Dragonfruit), 45);
    assert_eq!(plant_radius(PlantType::Gnome), 30);
    assert_eq!(grown_size(PlantType::Daisy), None);
    assert_eq!(grown_size(PlantType::Dragonfruit), Some(64));
    assert_eq!(grown_size(PlantType::Gnome), Some(64));
}

#[test]
fn pineapples_weaken_by_generation() {
    assert_eq!(PINEAPPLE_MAX_GENERATION, 2);
    let health: Vec<i32> = (0..3).map(|g| plant_max_health(PlantType::Pineapple(g))).collect();
    let radius: Vec<u32> = (0..3).map(|g| plant_radius(PlantType::Pineapple(g))).collect();
    let size: Vec<Option<u32>> = (0..3).map(|g| grown_size(PlantType::Pineapple(g))).collect();
    assert_eq!(health, vec![5, 3, 1]);
    assert_eq!(radius, vec![60, 45, 25]);
    assert_eq!(size, vec![Some(64), Some(48), Some(32)]);
    for g in [3, -1, i32::MAX, i32::MIN] {
        assert_eq!(plant_max_health(PlantType::Pineapple(g)), 0);
        assert_eq!(plant_radius(PlantType::Pineapple(g)), 0);
        assert_eq!(grown_size(PlantType::Pineapple(g)), Some(0));
    }
}

#[test]
fn plant_collision_is_strictly_inside_the_radius() {
    let at = GridPoint::new(0, 0);
    assert!(plant_collision_check(at, GridPoint::new(29, 0), PlantType::Daisy));
    assert!(!plant_collision_check(at, GridPoint::new(30, 0), PlantType::Daisy));
    assert!(plant_collision_check(at, GridPoint::new(18, 24), PlantType::Gnome) == false);
    assert!(plant_collision_check(at, GridPoint::new(17, 24), PlantType::Gnome));
    assert!(plant_collision_check(at, GridPoint::new(59, 0), PlantType::Pineapple(0)));
    assert!(!plant_collision_check(at, GridPoint::new(0, 0), PlantType::Pineapple(7)));
}

#[test]
fn plant_starts_as_a_seedling() {
    let p = plant(EntityId(7), GridPoint::new(3, 4), PlantType::Dragonfruit);
    assert_eq!(p.id, EntityId(7));
    assert_eq!(p.position, GridPoint::new(3, 4));
    assert_eq!(p.plant.plant_type(), PlantType::Dragonfruit);
    assert_eq!(p.health.current(), 5);
    assert_eq!(p.health.max(), 5);
    assert!(!p.is_mature());
    assert_eq!(p.growth.unwrap().0.duration(), 3_000_000);
    assert_eq!(Plant::default().plant_type(), PlantType::Daisy);
    assert_eq!(DAISY_CHAIN_LENGTH, 3);
}

#[test]
fn sow_plants_adds_a_seedling_for_each_event() {
    let mut plants = vec![plant(EntityId(0), GridPoint::new(0, 0), PlantType::Daisy)];
    let mut ids = IdSource { next: 5 };
    let events = vec![
        SowPlantEvent { position: GridPoint::new(10, 10), seed_type: PlantType::Gnome },
        SowPlantEvent { position: GridPoint::new(20, 20), seed_type: PlantType::Pineapple(1) },
    ];
    let sounds = sow_plants(&mut plants, &mut ids, &events);
    assert_eq!(plants.len(), 3);
    assert_eq!(plants[1], plant(EntityId(5), GridPoint::new(10, 10), PlantType::Gnome));
    assert_eq!(plants[2], plant(EntityId(6), GridPoint::new(20, 20), PlantType::Pineapple(1)));
    assert_eq!(ids.next, 7);
    assert_eq!(
        sounds,
        vec![
            SoundRequest { sound: SoundEffect::Sow, position: GridPoint::new(10, 10) },
            SoundRequest { sound: SoundEffect::Sow, position: GridPoint::new(20, 20) },
        ]
    );
}

#[test]
fn seedlings_grow_up_after_three_seconds() {
    let mut plants = vec![
        plant(EntityId(1), GridPoint::new(0, 0), PlantType::Daisy),
        plant(EntityId(2), GridPoint::new(5, 5), PlantType::Gnome),
    ];
    let grown = tick_growth(&mut plants, 2_999_999);
    assert!(grown.is_empty());
    assert!(!plants[0].is_mature());
    assert_eq!(plants[0].growth.unwrap().0.elapsed(), 2_999_999);
    plants[1].growth = None;
    let grown = tick_growth(&mut plants, 1);
    assert_eq!(grown.len(), 1);
    assert_eq!(grown[0].id, EntityId(1));
    assert!(grown[0].is_mature());
    assert!(plants[0].is_mature());
    assert!(plants[1].is_mature());
    let grown = tick_growth(&mut plants, 1_000_000);
    assert!(grown.is_empty());
}

#[test]
fn damage_plants_hits_the_plants_aimed_at() {
    let mut plants = vec![
        plant(EntityId(1), GridPoint::new(0, 0), PlantType::Gnome),
        plant(EntityId(2), GridPoint::new(5, 5), PlantType::Daisy),
    ];
    let events = vec![
        DamagePlantEvent { plant_entity: EntityId(1), amount: 3 },
        DamagePlantEvent { plant_entity: EntityId(9), amount: 3 },
        DamagePlantEvent { plant_entity: EntityId(2), amount: 5 },
        DamagePlantEvent { plant_entity: EntityId(1), amount: 4 },
    ];
    damage_plants(&mut plants, &events);
    assert_eq!(plants[0].health.current(), 3);
    assert_eq!(plants[1].health.current(), 0);
    assert_eq!(plants[0].health.max(), 10);
}

#[test]
fn fireball_starts_off_the_plant_and_flies_straight() {
    let origin = GridPoint::new(100, 200);
    let f = fireball(EntityId(3), EntityId(1), origin, Cardinal::East);
    assert_eq!(f.id, EntityId(3));
    assert_eq!(f.fireball, Fireball { active: true, spawning_entity: EntityId(1) });
    assert_eq!(f.position, GridPoint::new(140, 200));
    assert_eq!(f.motion, Motion::Along { dx: 15, dy: 0 });
    assert_eq!(f.lifespan.0.duration(), 1_000_000);
    let f = fireball(EntityId(3), EntityId(1), origin, Cardinal::South);
    assert_eq!(f.position, GridPoint::new(100, 160));
    assert_eq!(f.motion, Motion::Along { dx: 0, dy: -15 });
}

#[test]
fn fireball_deactivates() {
    let mut f = Fireball { active: true, spawning_entity: EntityId(1) };
    assert!(f.is_active());
    f.deactivate();
    assert!(!f.is_active());
    assert_eq!(f.spawning_entity(), EntityId(1));
}

#[test]
fn spew_fire_sends_four_fireballs() {
    let mut fireballs = vec![];
    let mut ids = IdSource { next: 10 };
    let origin = GridPoint::new(0, 0);
    let events = vec![SpewFireEvent { plant_entity: EntityId(1), origin }];
    let sounds = spew_fire(&mut fireballs, &mut ids, &events);
    assert_eq!(
        fireballs,
        vec![
            fireball(EntityId(10), EntityId(1), origin, Cardinal::East),
            fireball(EntityId(11), EntityId(1), origin, Cardinal::West),
            fireball(EntityId(12), EntityId(1), origin, Cardinal::North),
            fireball(EntityId(13), EntityId(1), origin, Cardinal::South),
        ]
    );
    assert_eq!(fireballs[1].position, GridPoint::new(-40, 0));
    assert_eq!(fireballs[2].position, GridPoint::new(0, 40));
    assert_eq!(fireballs[2].motion, Motion::Along { dx: 0, dy: 15 });
    assert_eq!(ids.next, 14);
    assert_eq!(sounds, vec![SoundRequest { sound: SoundEffect::FireballSpawn, position: origin }]);
}

#[test]
fn seed_selection_is_set_and_read() {
    let mut selection = SeedSelection::default();
    assert_eq!(selection.seed_type(), PlantType::Daisy);
    selection.set_seed_type(PlantType::Gnome);
    assert_eq!(selection.seed_type(), PlantType::Gnome);
}
