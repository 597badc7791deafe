use farm_defense::enemy::{
    bite_response, damage_enemies, enemy, enemy_spawner, freeze_enemies, nearest_plant,
    pursue_plants, pursue_plants_with, pursue_step, ring_offset, spawn_point, tick_bite_cooldowns,
    tick_spawn, tick_spawn_with, BiteCooldown, DamageEnemyEvent, EnemyEntity, BITE_COOLDOWN,
    ENEMY_SPAWN_LIMIT,
};
use farm_defense::entity::{EntityId, IdSource};
use farm_defense::geometry::GridPoint;
use farm_defense::physics::Motion;
use farm_defense::plant::{
    plant, DamagePlantEvent, PlantEntity, PlantType, SowPlantEvent, SpewFireEvent,
};
use farm_defense::sound::{SoundEffect, SoundRequest};
use farm_defense::timer::{Timer, TimerMode};

fn grown(id: u64, x: i32, y: i32, plant_type: PlantType) -> PlantEntity {
    let mut p = plant(EntityId(id), GridPoint::new(x, y), plant_type);
    p.growth = None;
    p
}

#[test]
fn enemy_starts_at_full_health() {
    let e = enemy(EntityId(1), GridPoint::new(5, 6));
    assert_eq!(e.position, GridPoint::new(5, 6));
    assert_eq!(e.health.current(), 5);
    assert_eq!(e.health.max(), 5);
    assert_eq!(e.bite_cooldown, None);
    assert_eq!(e.motion, Motion::Still);
}

#[test]
fn nearest_plant_is_the_first_of_the_nearest() {
    let from = GridPoint::new(0, 0);
    assert_eq!(nearest_plant(from, &vec![]), None);
    let plants = vec![
        grown(1, 10, 0, PlantType::Daisy),
        grown(2, 0, 5, PlantType::Daisy),
        grown(3, -5, 0, PlantType::Daisy),
        grown(4, 3, 4, PlantType::Daisy),
        grown(5, 0, 6, PlantType::Daisy),
    ];
    assert_eq!(nearest_plant(from, &plants), Some(1));
    assert_eq!(nearest_plant(GridPoint::new(9, 0), &plants), Some(0));
}

#[test]
fn ring_places_are_all_the_spread_distance_away() {
    let mut seen = vec![];
    for roll in 0..12 {
        let (dx, dy) = ring_offset(roll);
        assert_eq!(dx * dx + dy * dy, 45 * 45);
        assert!(!seen.contains(&(dx, dy)));
        seen.push((dx, dy));
    }
    assert_eq!(ring_offset(0), (45, 0));
    assert_eq!(ring_offset(1), (36, 27));
    assert_eq!(ring_offset(3), (0, 45));
    assert_eq!(ring_offset(12), (45, 0));
    assert_eq!(ring_offset(u32::MAX), ring_offset(u32::MAX % 12));
}

#[test]
fn bitten_seedling_does_not_answer() {
    let at = GridPoint::new(1, 1);
    for kind in [PlantType::Pineapple(0), PlantType::Dragonfruit, PlantType::Gnome] {
        let seedling = plant(EntityId(2), GridPoint::new(0, 0), kind);
        let r = bite_response(EntityId(1), at, &seedling, 0);
        assert_eq!(r.damage_enemy, None);
        assert_eq!(r.sow, None);
        assert_eq!(r.spew, None);
        assert_eq!(r.sound, None);
    }
}

#[test]
fn bitten_daisy_does_not_answer() {
    let r = bite_response(EntityId(1), GridPoint::new(1, 1), &grown(2, 0, 0, PlantType::Daisy), 0);
    assert_eq!(r.damage_enemy, None);
    assert_eq!(r.sow, None);
    assert_eq!(r.spew, None);
    assert_eq!(r.sound, None);
}

#[test]
fn bitten_pineapple_hurts_and_spreads() {
    let at = GridPoint::new(1, 1);
    let r = bite_response(EntityId(1), at, &grown(2, 100, 100, PlantType::Pineapple(0)), 1);
    assert_eq!(
        r.damage_enemy,
        Some(DamageEnemyEvent { enemy_entity: EntityId(1), amount: 2, position: at })
    );
    assert_eq!(
        r.sow,
        Some(SowPlantEvent {
            position: GridPoint::new(136, 127),
            seed_type: PlantType::Pineapple(1)
        })
    );
    assert_eq!(r.spew, None);
    assert_eq!(r.sound, Some(SoundRequest { sound: SoundEffect::RatDamage, position: at }));
    let r = bite_response(EntityId(1), at, &grown(2, 100, 100, PlantType::Pineapple(1)), 6);
    assert_eq!(
        r.sow,
        Some(SowPlantEvent {
            position: GridPoint::new(55, 100),
            seed_type: PlantType::Pineapple(2)
        })
    );
}

#[test]
fn bitten_pineapple_of_the_last_generation_does_not_spread() {
    let at = GridPoint::new(1, 1);
    for g in [2, 3, i32::MAX] {
        let r = bite_response(EntityId(1), at, &grown(2, 100, 100, PlantType::Pineapple(g)), 1);
        assert_eq!(r.sow, None);
        assert_eq!(
            r.damage_enemy,
            Some(DamageEnemyEvent { enemy_entity: EntityId(1), amount: 2, position: at })
        );
    }
}

#[test]
fn bitten_pineapple_at_the_edge_of_the_grid_spreads_inside_it() {
    let p = grown(2, i32::MAX, i32::MIN, PlantType::Pineapple(0));
    let r = bite_response(EntityId(1), GridPoint::new(0, 0), &p, 10);
    // the place (27, -36) away lies outside the grid on both axes
    assert_eq!(r.sow.unwrap().position, GridPoint::new(i32::MAX, i32::MIN));
}

#[test]
fn bitten_dragonfruit_hurts_and_spews() {
    let at = GridPoint::new(1, 1);
    let r = bite_response(EntityId(1), at, &grown(2, 100, 100, PlantType::Dragonfruit), 0);
    assert_eq!(
        r.damage_enemy,
        Some(DamageEnemyEvent { enemy_entity: EntityId(1), amount: 1, position: at })
    );
    assert_eq!(r.sow, None);
    assert_eq!(
        r.spew,
        Some(SpewFireEvent { plant_entity: EntityId(2), origin: GridPoint::new(100, 100) })
    );
    assert_eq!(r.sound, Some(SoundRequest { sound: SoundEffect::RatDamage, position: at }));
}

#[test]
fn bitten_gnome_hurts() {
    let at = GridPoint::new(1, 1);
    let r = bite_response(EntityId(1), at, &grown(2, 100, 100, PlantType::Gnome), 0);
    assert_eq!(
        r.damage_enemy,
        Some(DamageEnemyEvent { enemy_entity: EntityId(1), amount: 1, position: at })
    );
    assert_eq!(r.sow, None);
    assert_eq!(r.spew, None);
    assert_eq!(r.sound, Some(SoundRequest { sound: SoundEffect::Headbonk, position: at }));
}

#[test]
fn enemy_that_strayed_leaves() {
    let plants = vec![grown(2, 1500, 0, PlantType::Daisy)];
    let player = Some(GridPoint::new(0, 0));
    let near = enemy(EntityId(1), GridPoint::new(1500, 0));
    let far = enemy(EntityId(1), GridPoint::new(1501, 0));
    assert!(!pursue_step(&near, &plants, player, 0).despawned);
    let step = pursue_step(&far, &plants, player, 0);
    assert!(step.despawned);
    assert_eq!(step.damage_plant, None);
    // without a player no rat strays
    assert!(!pursue_step(&far, &plants, None, 0).despawned);
}

#[test]
fn enemy_without_plants_walks_up() {
    let e = enemy(EntityId(1), GridPoint::new(10, 10));
    let step = pursue_step(&e, &vec![], Some(GridPoint::new(0, 0)), 0);
    assert!(!step.despawned);
    assert_eq!(step.enemy.motion, Motion::Along { dx: 0, dy: 120 });
    assert_eq!(step.damage_plant, None);
    assert_eq!(step.bite_sound, None);
}

#[test]
fn enemy_walks_to_the_nearest_plant() {
    let plants = vec![grown(2, 500, 0, PlantType::Daisy), grown(3, 80, 0, PlantType::Gnome)];
    let e = enemy(EntityId(1), GridPoint::new(0, 0));
    let step = pursue_step(&e, &plants, Some(GridPoint::new(0, 0)), 0);
    // 80 away is not yet in biting range
    assert_eq!(step.enemy.motion, Motion::Toward { target: GridPoint::new(80, 0), speed: 120 });
    assert_eq!(step.damage_plant, None);
    assert_eq!(step.enemy.bite_cooldown, None);
}

#[test]
fn enemy_bites_in_range_and_cools_down() {
    let plants = vec![grown(2, 500, 0, PlantType::Daisy), grown(3, 79, 0, PlantType::Gnome)];
    let e = enemy(EntityId(1), GridPoint::new(0, 0));
    let step = pursue_step(&e, &plants, Some(GridPoint::new(0, 0)), 0);
    assert_eq!(step.damage_plant, Some(DamagePlantEvent { plant_entity: EntityId(3), amount: 1 }));
    assert_eq!(
        step.response.damage_enemy,
        Some(DamageEnemyEvent {
            enemy_entity: EntityId(1),
            amount: 1,
            position: GridPoint::new(0, 0)
        })
    );
    assert_eq!(
        step.bite_sound,
        Some(SoundRequest { sound: SoundEffect::Bite, position: GridPoint::new(0, 0) })
    );
    assert_eq!(
        step.enemy.bite_cooldown,
        Some(BiteCooldown(Timer::new(BITE_COOLDOWN, TimerMode::Once)))
    );
    assert_eq!(step.enemy.motion, Motion::Still);

    let again = pursue_step(&step.enemy, &plants, Some(GridPoint::new(0, 0)), 0);
    assert_eq!(again.damage_plant, None);
    assert_eq!(again.response.damage_enemy, None);
    assert_eq!(again.bite_sound, None);
    assert_eq!(again.enemy, step.enemy);
}

#[test]
fn pursuit_collects_what_the_rats_ask_for() {
    let plants = vec![
        grown(10, 0, 0, PlantType::Pineapple(0)),
        grown(11, 1000, 0, PlantType::Dragonfruit),
    ];
    let mut enemies = vec![
        enemy(EntityId(1), GridPoint::new(10, 0)),
        enemy(EntityId(2), GridPoint::new(3000, 0)),
        enemy(EntityId(3), GridPoint::new(1000, 10)),
        enemy(EntityId(4), GridPoint::new(600, 500)),
    ];
    let outcome =
        pursue_plants_with(&mut enemies, &plants, Some(GridPoint::new(0, 0)), &vec![3, 0, 0]);
    assert_eq!(outcome.despawned, vec![EntityId(2)]);
    assert_eq!(
        enemies.iter().map(|e| e.id).collect::<Vec<_>>(),
        vec![EntityId(1), EntityId(3), EntityId(4)]
    );
    assert_eq!(
        outcome.damage_plant_events,
        vec![
            DamagePlantEvent { plant_entity: EntityId(10), amount: 1 },
            DamagePlantEvent { plant_entity: EntityId(11), amount: 1 },
        ]
    );
    assert_eq!(
        outcome.damage_enemy_events,
        vec![
            DamageEnemyEvent {
                enemy_entity: EntityId(1),
                amount: 2,
                position: GridPoint::new(10, 0)
            },
            DamageEnemyEvent {
                enemy_entity: EntityId(3),
                amount: 1,
                position: GridPoint::new(1000, 10)
            },
        ]
    );
    assert_eq!(
        outcome.sow_events,
        vec![SowPlantEvent { position: GridPoint::new(0, 45), seed_type: PlantType::Pineapple(1) }]
    );
    assert_eq!(
        outcome.spew_events,
        vec![SpewFireEvent { plant_entity: EntityId(11), origin: GridPoint::new(1000, 0) }]
    );
    assert_eq!(
        outcome.sounds,
        vec![
            SoundRequest { sound: SoundEffect::RatDamage, position: GridPoint::new(10, 0) },
            SoundRequest { sound: SoundEffect::Bite, position: GridPoint::new(10, 0) },
            SoundRequest { sound: SoundEffect::RatDamage, position: GridPoint::new(1000, 10) },
            SoundRequest { sound: SoundEffect::Bite, position: GridPoint::new(1000, 10) },
        ]
    );
    assert!(enemies[0].bite_cooldown.is_some());
    assert!(enemies[1].bite_cooldown.is_some());
    assert_eq!(enemies[2].bite_cooldown, None);
    assert_eq!(
        enemies[2].motion,
        Motion::Toward { target: GridPoint::new(1000, 0), speed: 120 }
    );
}

#[test]
fn pursuit_at_random_sows_on_the_ring() {
    let plants = vec![grown(10, 0, 0, PlantType::Pineapple(1))];
    for _ in 0..50 {
        let mut enemies = vec![enemy(EntityId(1), GridPoint::new(10, 0))];
        let outcome = pursue_plants(&mut enemies, &plants, None);
        assert_eq!(outcome.sow_events.len(), 1);
        let sow = outcome.sow_events[0];
        assert_eq!(sow.seed_type, PlantType::Pineapple(2));
        assert_eq!(sow.position.distance_squared(&GridPoint::new(0, 0)), 2025);
        assert_eq!(outcome.damage_plant_events.len(), 1);
    }
}

#[test]
fn cooldowns_run_out_after_their_time() {
    let mut enemies = vec![enemy(EntityId(1), GridPoint::new(0, 0)); 2];
    enemies[1].bite_cooldown = Some(BiteCooldown(Timer::new(BITE_COOLDOWN, TimerMode::Once)));
    tick_bite_cooldowns(&mut enemies, 2_499_999);
    assert_eq!(enemies[0].bite_cooldown, None);
    assert_eq!(enemies[1].bite_cooldown.unwrap().0.elapsed(), 2_499_999);
    tick_bite_cooldowns(&mut enemies, 1);
    assert_eq!(enemies[1].bite_cooldown, None);
}

#[test]
fn damage_enemies_hits_the_rats_aimed_at() {
    let mut enemies = vec![
        enemy(EntityId(1), GridPoint::new(0, 0)),
        enemy(EntityId(2), GridPoint::new(5, 5)),
    ];
    let events = vec![
        DamageEnemyEvent { enemy_entity: EntityId(2), amount: 2, position: GridPoint::new(1, 1) },
        DamageEnemyEvent { enemy_entity: EntityId(7), amount: 2, position: GridPoint::new(2, 2) },
        DamageEnemyEvent { enemy_entity: EntityId(2), amount: 4, position: GridPoint::new(3, 3) },
        DamageEnemyEvent { enemy_entity: EntityId(1), amount: 1, position: GridPoint::new(4, 4) },
    ];
    let blows = damage_enemies(&mut enemies, &events);
    assert_eq!(enemies[0].health.current(), 4);
    assert_eq!(enemies[1].health.current(), 0);
    assert_eq!(blows, vec![GridPoint::new(1, 1), GridPoint::new(3, 3), GridPoint::new(4, 4)]);
}

#[test]
fn freeze_stops_every_rat() {
    let mut enemies = vec![enemy(EntityId(1), GridPoint::new(0, 0)); 3];
    enemies[0].motion = Motion::Along { dx: 0, dy: 120 };
    enemies[2].motion = Motion::Toward { target: GridPoint::new(9, 9), speed: 120 };
    let before: Vec<EnemyEntity> = enemies.clone();
    freeze_enemies(&mut enemies);
    for (e, b) in enemies.iter().zip(before.iter()) {
        assert_eq!(e.motion, Motion::Still);
        assert_eq!(e.health, b.health);
        assert_eq!(e.position, b.position);
    }
}

#[test]
fn spawn_point_spreads_over_the_height() {
    let s = enemy_spawner(GridPoint::new(640, 0), 921);
    assert_eq!(spawn_point(&s, 0), GridPoint::new(640, -460));
    assert_eq!(spawn_point(&s, 460), GridPoint::new(640, 0));
    assert_eq!(spawn_point(&s, 920), GridPoint::new(640, 460));
    assert_eq!(spawn_point(&s, 921), GridPoint::new(640, -460));
    let flat = enemy_spawner(GridPoint::new(1, 2), 0);
    assert_eq!(spawn_point(&flat, 77), GridPoint::new(1, 2));
    let high = enemy_spawner(GridPoint::new(0, i32::MAX), u32::MAX);
    assert_eq!(spawn_point(&high, u32::MAX - 1), GridPoint::new(0, i32::MAX));
}

#[test]
fn spawner_lets_a_rat_in_once_per_interval() {
    let mut spawners = vec![enemy_spawner(GridPoint::new(640, 0), 921)];
    let mut enemies = vec![];
    let plants = vec![plant(EntityId(0), GridPoint::new(0, 0), PlantType::Daisy)];
    let mut ids = IdSource { next: 1 };
    tick_spawn_with(&mut spawners, &mut enemies, &plants, &mut ids, 999_999, &vec![500]);
    assert!(enemies.is_empty());
    assert_eq!(ids.next, 1);
    tick_spawn_with(&mut spawners, &mut enemies, &plants, &mut ids, 1, &vec![500]);
    assert_eq!(enemies, vec![enemy(EntityId(1), GridPoint::new(640, 40))]);
    assert_eq!(ids.next, 2);
    assert_eq!(spawners[0].timer.0.elapsed(), 0);
}

#[test]
fn spawner_waits_for_a_daisy() {
    let mut spawners = vec![enemy_spawner(GridPoint::new(640, 0), 921)];
    let mut enemies = vec![];
    let plants = vec![plant(EntityId(0), GridPoint::new(0, 0), PlantType::Gnome)];
    let mut ids = IdSource { next: 1 };
    tick_spawn_with(&mut spawners, &mut enemies, &plants, &mut ids, 1_000_000, &vec![0]);
    assert!(enemies.is_empty());
    tick_spawn_with(&mut spawners, &mut enemies, &vec![], &mut ids, 1_000_000, &vec![0]);
    assert!(enemies.is_empty());
    assert_eq!(ids.next, 1);
}

#[test]
fn spawners_keep_to_the_limit() {
    assert_eq!(ENEMY_SPAWN_LIMIT, 3);
    let mut spawners = vec![enemy_spawner(GridPoint::new(640, 0), 921); 3];
    let mut enemies = vec![enemy(EntityId(100), GridPoint::new(0, 0))];
    let plants = vec![plant(EntityId(0), GridPoint::new(0, 0), PlantType::Daisy)];
    let mut ids = IdSource { next: 1 };
    tick_spawn_with(&mut spawners, &mut enemies, &plants, &mut ids, 1_000_000, &vec![]);
    assert_eq!(
        enemies.iter().map(|e| e.id).collect::<Vec<_>>(),
        vec![EntityId(100), EntityId(1), EntityId(2)]
    );
    tick_spawn_with(&mut spawners, &mut enemies, &plants, &mut ids, 1_000_000, &vec![]);
    assert_eq!(enemies.len(), 3);
    assert_eq!(ids.next, 3);
}

#[test]
fn spawner_at_random_stays_within_its_height() {
    let plants = vec![plant(EntityId(0), GridPoint::new(0, 0), PlantType::Daisy)];
    for _ in 0..50 {
        let mut spawners = vec![enemy_spawner(GridPoint::new(640, 0), 921)];
        let mut enemies = vec![];
        let mut ids = IdSource::new();
        tick_spawn(&mut spawners, &mut enemies, &plants, &mut ids, 1_000_000);
        assert_eq!(enemies.len(), 1);
        assert_eq!(enemies[0].position.x, 640);
        assert!(-460 <= enemies[0].position.y && enemies[0].position.y <= 460);
    }
}
