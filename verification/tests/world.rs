use farm_defense::enemy::enemy;
use farm_defense::entity::EntityId;
use farm_defense::farm::{BankAccount, RestartGameEvent};
use farm_defense::geometry::GridPoint;
use farm_defense::particle::ParticleKind;
use farm_defense::physics::{CollisionStarted, Motion};
use farm_defense::plant::{plant, PlantEntity, PlantType};
use farm_defense::player::PlayerClickEvent;
use farm_defense::player_animation::PlayerAnimationState;
use farm_defense::sound::{SoundEffect, SoundRequest};
use farm_defense::world::{check_end_conditions, spawn_level, GameResult, WorldState};

const FRAME: u64 = 16_000;

fn grown(id: u64, x: i32, y: i32, plant_type: PlantType) -> PlantEntity {
    let mut p = plant(EntityId(id), GridPoint::new(x, y), plant_type);
    p.growth = None;
    p
}

fn quiet_tick(world: &mut WorldState, delta: u64) {
    world.tick_with(delta, &vec![], &vec![], &vec![], &vec![], &vec![]);
}

#[test]
fn level_starts_with_farm_and_player() {
    let world = spawn_level();
    assert_eq!(world.bank_account, Some(BankAccount::new(10)));
    assert_eq!(world.player.unwrap().position, GridPoint::new(0, 0));
    assert_eq!(world.seed_selection.seed_type(), PlantType::Daisy);
    assert_eq!(world.spawners.len(), 1);
    assert!(world.plants.is_empty());
    assert!(world.enemies.is_empty());
    assert!(world.fireballs.is_empty());
    assert!(world.seeds.is_empty());
    assert!(world.particles.is_empty());
    assert_eq!(world.end_game, None);
    assert_eq!(world.ids.next, 0);
}

#[test]
fn a_click_buys_a_seed_that_flies_and_is_sown_and_grows() {
    let mut world = spawn_level();
    let click = GridPoint::new(100, 0);
    world.tick_with(FRAME, &vec![], &vec![PlayerClickEvent(click)], &vec![], &vec![], &vec![]);
    assert_eq!(world.bank_account.unwrap().balance(), 9);
    assert_eq!(world.balance_updates.len(), 1);
    assert_eq!(world.seeds.len(), 1);
    assert_eq!(world.seeds[0].id, EntityId(0));
    assert_eq!(world.seeds[0].position, GridPoint::new(0, 0));
    assert_eq!(world.seeds[0].path.path, vec![click]);
    assert_eq!(
        world.sounds,
        vec![SoundRequest { sound: SoundEffect::Throw, position: GridPoint::new(0, 0) }]
    );
    assert_eq!(world.player.unwrap().animation.state, PlayerAnimationState::Planting(false));
    assert!(world.throw_seed_events.is_empty());

    quiet_tick(&mut world, FRAME);
    assert_eq!(world.seeds[0].motion, Motion::Toward { target: click, speed: 300 });
    assert!(world.sounds.is_empty());
    assert!(world.balance_updates.is_empty());
    assert!(world.plants.is_empty());

    // the caller moves the seed; here it has come close to where it goes
    world.seeds[0].position = GridPoint::new(98, 0);
    quiet_tick(&mut world, FRAME);
    assert!(world.seeds.is_empty());
    assert_eq!(world.plants, vec![plant(EntityId(1), GridPoint::new(98, 0), PlantType::Daisy)]);
    assert_eq!(
        world.sounds,
        vec![SoundRequest { sound: SoundEffect::Sow, position: GridPoint::new(98, 0) }]
    );

    quiet_tick(&mut world, 2_999_999);
    assert!(!world.plants[0].is_mature());
    quiet_tick(&mut world, 1);
    assert!(world.plants[0].is_mature());
    assert_eq!(
        world.sounds,
        vec![SoundRequest { sound: SoundEffect::Growth, position: GridPoint::new(98, 0) }]
    );
    assert_eq!(world.bank_account.unwrap().balance(), 9);
}

#[test]
fn a_click_that_is_turned_down_changes_nothing() {
    let mut world = spawn_level();
    world.seed_selection.set_seed_type(PlantType::Gnome);
    world.bank_account = Some(BankAccount::new(4));
    let click = GridPoint::new(100, 0);
    world.tick_with(FRAME, &vec![], &vec![PlayerClickEvent(click)], &vec![], &vec![], &vec![]);
    assert_eq!(world.bank_account.unwrap().balance(), 4);
    assert!(world.seeds.is_empty());
    assert!(world.plants.is_empty());
    assert!(world.balance_updates.is_empty());
    assert_eq!(world.sounds, vec![SoundRequest { sound: SoundEffect::Invalid, position: click }]);
    assert_eq!(world.ids.next, 0);
}

#[test]
fn rats_come_once_a_daisy_stands() {
    let mut world = spawn_level();
    quiet_tick(&mut world, 1_000_000);
    assert!(world.enemies.is_empty());
    world.plants.push(plant(EntityId(50), GridPoint::new(0, 0), PlantType::Daisy));
    world.tick_with(1_000_000, &vec![], &vec![], &vec![], &vec![460], &vec![]);
    assert_eq!(world.enemies.len(), 1);
    assert_eq!(world.enemies[0].id, EntityId(0));
    assert_eq!(world.enemies[0].position, GridPoint::new(640, 0));
    // in the tick it came in, the rat turned to the daisy
    assert_eq!(
        world.enemies[0].motion,
        Motion::Toward { target: GridPoint::new(0, 0), speed: 120 }
    );
}

#[test]
fn a_bitten_dragonfruit_spews_fire_that_burns_the_rat() {
    let mut world = spawn_level();
    world.spawners.clear();
    world.ids.next = 10;
    world.plants.push(grown(1, 0, 0, PlantType::Dragonfruit));
    world.enemies.push(enemy(EntityId(2), GridPoint::new(50, 0)));
    quiet_tick(&mut world, FRAME);
    assert_eq!(world.plants[0].health.current(), 4);
    assert_eq!(world.enemies[0].health.current(), 4);
    assert!(world.enemies[0].bite_cooldown.is_some());
    assert_eq!(world.particles.len(), 1);
    assert_eq!(world.particles[0].kind, ParticleKind::Star);
    assert_eq!(world.particles[0].id, EntityId(10));
    assert_eq!(world.particles[0].position, GridPoint::new(50, 0));
    assert_eq!(
        world.fireballs.iter().map(|f| f.id).collect::<Vec<_>>(),
        vec![EntityId(11), EntityId(12), EntityId(13), EntityId(14)]
    );
    assert_eq!(world.fireballs[0].position, GridPoint::new(40, 0));
    assert_eq!(
        world.sounds,
        vec![
            SoundRequest { sound: SoundEffect::RatDamage, position: GridPoint::new(50, 0) },
            SoundRequest { sound: SoundEffect::Bite, position: GridPoint::new(50, 0) },
            SoundRequest { sound: SoundEffect::FireballSpawn, position: GridPoint::new(0, 0) },
        ]
    );
    assert!(world.damage_plant_events.is_empty());
    assert!(world.damage_enemy_events.is_empty());
    assert!(world.spew_fire_events.is_empty());

    // the physics reports that the fireball flying east met the rat, twice
    let hit = CollisionStarted(EntityId(11), EntityId(2));
    world.tick_with(FRAME, &vec![], &vec![], &vec![hit, hit], &vec![], &vec![]);
    assert_eq!(world.enemies[0].health.current(), 2);
    assert_eq!(world.fireballs.len(), 3);
    assert_eq!(world.plants[0].health.current(), 4);
    assert_eq!(
        world.sounds,
        vec![SoundRequest { sound: SoundEffect::Burn, position: GridPoint::new(50, 0) }]
    );
    assert_eq!(
        world.particles.iter().map(|p| p.kind).collect::<Vec<_>>(),
        vec![ParticleKind::Star, ParticleKind::Smoke]
    );
    world.tick_with(FRAME, &vec![], &vec![], &vec![hit], &vec![], &vec![]);
    assert_eq!(world.enemies[0].health.current(), 2);

    let hit = CollisionStarted(EntityId(2), EntityId(12));
    world.tick_with(FRAME, &vec![], &vec![], &vec![hit], &vec![], &vec![]);
    assert!(world.enemies.is_empty());
    assert_eq!(
        world.sounds,
        vec![
            SoundRequest { sound: SoundEffect::Burn, position: GridPoint::new(50, 0) },
            SoundRequest { sound: SoundEffect::Death, position: GridPoint::new(50, 0) },
        ]
    );
}

#[test]
fn a_plant_bitten_to_death_is_removed_before_chains_are_looked_for() {
    let mut world = spawn_level();
    world.spawners.clear();
    world.plants.push(grown(1, 0, 0, PlantType::Daisy));
    world.plants.push(grown(2, 500, 0, PlantType::Daisy));
    world.plants.push(grown(3, 900, 0, PlantType::Daisy));
    world.plants[0].health.reduce(1);
    world.enemies.push(enemy(EntityId(4), GridPoint::new(10, 0)));
    quiet_tick(&mut world, FRAME);
    assert_eq!(
        world.plants.iter().map(|p| p.id).collect::<Vec<_>>(),
        vec![EntityId(2), EntityId(3)]
    );
    assert_eq!(world.bank_account.unwrap().balance(), 10);
    assert_eq!(
        world.sounds,
        vec![
            SoundRequest { sound: SoundEffect::Bite, position: GridPoint::new(10, 0) },
            SoundRequest { sound: SoundEffect::Death, position: GridPoint::new(0, 0) },
        ]
    );
}

#[test]
fn three_grown_daisies_are_sold_in_the_tick_they_stand() {
    let mut world = spawn_level();
    world.spawners.clear();
    world.ids.next = 9;
    for (i, x) in [0, 30, 60, 90, 120].iter().enumerate() {
        world.plants.push(grown(i as u64, *x, 0, PlantType::Daisy));
    }
    quiet_tick(&mut world, FRAME);
    assert_eq!(
        world.plants.iter().map(|p| p.id).collect::<Vec<_>>(),
        vec![EntityId(3), EntityId(4)]
    );
    assert_eq!(world.bank_account.unwrap().balance(), 20);
    assert_eq!(world.balance_updates.len(), 1);
    assert_eq!(world.particles.len(), 1);
    assert_eq!(world.particles[0].kind, ParticleKind::Coin);
    assert_eq!(world.particles[0].position, GridPoint::new(30, 0));
    assert_eq!(world.particles[0].id, EntityId(9));
    assert_eq!(
        world.sounds,
        vec![SoundRequest { sound: SoundEffect::GetCoin, position: GridPoint::new(30, 0) }]
    );
    quiet_tick(&mut world, FRAME);
    assert_eq!(world.plants.len(), 2);
    assert_eq!(world.bank_account.unwrap().balance(), 20);
}

#[test]
fn the_round_is_won_at_the_winning_balance() {
    assert_eq!(check_end_conditions(149, &vec![]), None);
    assert_eq!(check_end_conditions(150, &vec![]), Some(GameResult::Won));
    assert_eq!(check_end_conditions(i64::MAX, &vec![]), Some(GameResult::Won));
    let mut world = spawn_level();
    world.bank_account = Some(BankAccount::new(140));
    for (i, x) in [0, 30, 60, 90].iter().enumerate() {
        world.plants.push(grown(i as u64 + 100, *x, 0, PlantType::Daisy));
    }
    world.enemies.push(enemy(EntityId(200), GridPoint::new(1000, 1000)));
    quiet_tick(&mut world, FRAME);
    assert_eq!(world.bank_account.unwrap().balance(), 150);
    assert_eq!(world.end_game, Some(GameResult::Won));
    assert!(world.plants.is_empty());
    assert!(world.enemies.is_empty());
    assert!(world.particles.is_empty());
    assert!(world.seeds.is_empty());
    assert!(world.fireballs.is_empty());
}

#[test]
fn the_round_is_lost_without_money_and_without_a_chain_in_sight() {
    let two = vec![grown(1, 0, 0, PlantType::Daisy), grown(2, 30, 0, PlantType::Daisy)];
    let mut three = two.clone();
    three.push(grown(3, 60, 0, PlantType::Daisy));
    let mut seedling = two.clone();
    seedling.push(plant(EntityId(3), GridPoint::new(60, 0), PlantType::Daisy));
    assert_eq!(check_end_conditions(0, &two), Some(GameResult::Lost));
    assert_eq!(check_end_conditions(-5, &vec![]), Some(GameResult::Lost));
    assert_eq!(check_end_conditions(0, &three), None);
    assert_eq!(check_end_conditions(0, &seedling), Some(GameResult::Lost));
    assert_eq!(check_end_conditions(1, &vec![]), None);

    let mut world = spawn_level();
    world.bank_account = Some(BankAccount::new(0));
    world.plants = two;
    quiet_tick(&mut world, FRAME);
    assert_eq!(world.end_game, Some(GameResult::Lost));
    assert!(world.plants.is_empty());
    assert_eq!(world.bank_account.unwrap().balance(), 0);
}

#[test]
fn restart_brings_back_the_starting_balance_and_clears_the_round() {
    let mut world = spawn_level();
    world.bank_account = Some(BankAccount::new(0));
    world.plants.push(grown(1, 0, 0, PlantType::Gnome));
    world.enemies.push(enemy(EntityId(2), GridPoint::new(50, 0)));
    quiet_tick(&mut world, FRAME);
    assert_eq!(world.end_game, Some(GameResult::Lost));
    world.plants.push(grown(3, 0, 0, PlantType::Gnome));
    world.enemies.push(enemy(EntityId(4), GridPoint::new(900, 0)));
    let next = world.ids.next;

    world.restart_game(&vec![RestartGameEvent]);
    assert_eq!(world.bank_account.unwrap().balance(), 10);
    assert!(world.plants.is_empty());
    assert!(world.enemies.is_empty());
    assert!(world.fireballs.is_empty());
    assert!(world.seeds.is_empty());
    assert!(world.particles.is_empty());
    assert_eq!(world.end_game, None);
    assert_eq!(world.balance_updates.len(), 1);
    assert_eq!(world.ids.next, next);
    assert!(world.player.is_some());
    assert_eq!(world.spawners.len(), 1);

    // a restart that comes in with a tick is done before anything else
    world.plants.push(grown(5, 0, 0, PlantType::Gnome));
    world.bank_account = Some(BankAccount::new(77));
    world.tick_with(
        FRAME,
        &vec![RestartGameEvent],
        &vec![PlayerClickEvent(GridPoint::new(0, 0))],
        &vec![],
        &vec![],
        &vec![],
    );
    assert!(world.plants.is_empty());
    assert_eq!(world.bank_account.unwrap().balance(), 9);
    assert_eq!(world.seeds.len(), 1);
    // the restart and the purchase each changed the balance
    assert_eq!(world.balance_updates.len(), 2);
}

#[test]
fn a_world_without_an_account_sells_and_ends_nothing() {
    let mut world = spawn_level();
    world.bank_account = None;
    world.spawners.clear();
    for (i, x) in [0, 30, 60].iter().enumerate() {
        world.plants.push(grown(i as u64, *x, 0, PlantType::Daisy));
    }
    world.tick_with(
        FRAME,
        &vec![RestartGameEvent],
        &vec![PlayerClickEvent(GridPoint::new(200, 0))],
        &vec![],
        &vec![],
        &vec![],
    );
    assert_eq!(world.plants.len(), 3);
    assert_eq!(world.bank_account, None);
    assert_eq!(world.end_game, None);
    assert!(world.seeds.is_empty());
    assert!(world.sounds.is_empty());
}

#[test]
fn a_tick_at_random_keeps_rats_within_the_spawn_height() {
    for _ in 0..20 {
        let mut world = spawn_level();
        world.plants.push(plant(EntityId(50), GridPoint::new(0, 0), PlantType::Daisy));
        world.tick(1_000_000, &vec![], &vec![], &vec![]);
        assert_eq!(world.enemies.len(), 1);
        let at = world.enemies[0].position;
        assert_eq!(at.x, 640);
        assert!(-460 <= at.y && at.y <= 460);
    }
}

#[test]
fn a_thrown_seed_is_relayed_by_a_gnome() {
    let mut world = spawn_level();
    world.spawners.clear();
    world.ids.next = 5;
    world.plants.push(grown(1, 200, 0, PlantType::Gnome));
    let click = GridPoint::new(650, 0);
    world.tick_with(FRAME, &vec![], &vec![PlayerClickEvent(click)], &vec![], &vec![], &vec![]);
    assert_eq!(world.seeds.len(), 1);
    assert_eq!(world.seeds[0].path.path, vec![GridPoint::new(200, 0), click]);
    world.seeds[0].position = GridPoint::new(199, 1);
    quiet_tick(&mut world, FRAME);
    // the seed that arrived is gone, and the gnome threw a new one on
    assert_eq!(world.seeds.len(), 1);
    assert_eq!(world.seeds[0].id, EntityId(6));
    assert_eq!(world.seeds[0].position, GridPoint::new(200, 0));
    assert_eq!(world.seeds[0].path.path, vec![click]);
    // the throw of a gnome is not heard, and the player is not seen throwing again
    assert!(world.sounds.is_empty());
    world.seeds[0].position = GridPoint::new(650, 4);
    quiet_tick(&mut world, FRAME);
    assert!(world.seeds.is_empty());
    assert_eq!(world.plants.len(), 2);
    assert_eq!(world.plants[1].position, GridPoint::new(650, 4));
    assert_eq!(world.plants[1].plant.plant_type(), PlantType::Daisy);
    assert_eq!(world.bank_account.unwrap().balance(), 9);
}
