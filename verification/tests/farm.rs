use farm_defense::entity::EntityId;
use farm_defense::farm::{
    farm, gnome_positions, is_spot_taken, on_player_click, player_click, BankAccount,
    STARTING_BALANCE, WINNING_BALANCE,
};
use farm_defense::geometry::GridPoint;
use farm_defense::plant::{plant, PlantEntity, PlantType};
use farm_defense::player::PlayerClickEvent;
use farm_defense::sound::{SoundEffect, SoundRequest};
use farm_defense::timer::TimerMode;

fn grown(id: u64, x: i32, y: i32, plant_type: PlantType) -> PlantEntity {
    let mut p = plant(EntityId(id), GridPoint::new(x, y), plant_type);
    p.growth = None;
    p
}

#[test]
fn bank_account_credit_and_deduct() {
    let mut account = BankAccount::new(10);
    assert_eq!(account.balance(), 10);
    account.deduct(3);
    assert_eq!(account.balance(), 7);
    account.credit(10);
    assert_eq!(account.balance(), 17);
    account.deduct(20);
    assert_eq!(account.balance(), -3);
}

#[test]
fn bank_account_stops_at_the_ends_of_its_range() {
    let mut account = BankAccount::new(i64::MAX);
    account.credit(1);
    assert_eq!(account.balance(), i64::MAX);
    account.deduct(i64::MIN);
    assert_eq!(account.balance(), i64::MAX);
    let mut account = BankAccount::new(i64::MIN);
    account.deduct(1);
    assert_eq!(account.balance(), i64::MIN);
}

#[test]
fn farm_starts_with_the_starting_balance_and_a_spawner() {
    let f = farm();
    assert_eq!(STARTING_BALANCE, 10);
    assert_eq!(WINNING_BALANCE, 150);
    assert_eq!(f.bank_account.balance(), 10);
    assert_eq!(f.spawner.position, GridPoint::new(640, 0));
    assert_eq!(f.spawner.spawner.spawn_height, 921);
    assert_eq!(f.spawner.timer.0.duration(), 1_000_000);
    assert_eq!(f.spawner.timer.0.mode, TimerMode::Repeating);
}

#[test]
fn click_in_reach_buys_a_seed() {
    let mut account = BankAccount::new(10);
    let throw = player_click(
        GridPoint::new(100, 0),
        GridPoint::new(0, 0),
        PlantType::Daisy,
        &vec![],
        &mut account,
    )
    .unwrap();
    assert!(throw.from_player);
    assert_eq!(throw.seed_type, PlantType::Daisy);
    assert_eq!(throw.path, vec![GridPoint::new(0, 0), GridPoint::new(100, 0)]);
    assert_eq!(account.balance(), 9);
}

#[test]
fn click_out_of_reach_is_turned_down() {
    let mut account = BankAccount::new(10);
    let at_edge = player_click(
        GridPoint::new(240, 0),
        GridPoint::new(0, 0),
        PlantType::Daisy,
        &vec![],
        &mut account,
    );
    assert!(at_edge.is_some());
    assert_eq!(account.balance(), 9);
    let beyond = player_click(
        GridPoint::new(241, 0),
        GridPoint::new(0, 0),
        PlantType::Daisy,
        &vec![],
        &mut account,
    );
    assert!(beyond.is_none());
    assert_eq!(account.balance(), 9);
}

#[test]
fn click_on_a_plant_is_turned_down() {
    let plants = vec![plant(EntityId(1), GridPoint::new(100, 0), PlantType::Daisy)];
    assert!(is_spot_taken(&plants, GridPoint::new(129, 0)));
    assert!(!is_spot_taken(&plants, GridPoint::new(130, 0)));
    let mut account = BankAccount::new(10);
    let throw = player_click(
        GridPoint::new(129, 0),
        GridPoint::new(0, 0),
        PlantType::Daisy,
        &plants,
        &mut account,
    );
    assert!(throw.is_none());
    assert_eq!(account.balance(), 10);
    let throw = player_click(
        GridPoint::new(130, 0),
        GridPoint::new(0, 0),
        PlantType::Daisy,
        &plants,
        &mut account,
    );
    assert!(throw.is_some());
    assert_eq!(account.balance(), 9);
}

#[test]
fn click_without_the_money_is_turned_down() {
    let mut account = BankAccount::new(4);
    let throw = player_click(
        GridPoint::new(100, 0),
        GridPoint::new(0, 0),
        PlantType::Gnome,
        &vec![],
        &mut account,
    );
    assert!(throw.is_none());
    assert_eq!(account.balance(), 4);
    let mut account = BankAccount::new(5);
    let throw = player_click(
        GridPoint::new(100, 0),
        GridPoint::new(0, 0),
        PlantType::Gnome,
        &vec![],
        &mut account,
    );
    assert!(throw.is_some());
    assert_eq!(account.balance(), 0);
}

#[test]
fn click_is_relayed_by_grown_gnomes_only() {
    let seedling_gnome = vec![plant(EntityId(1), GridPoint::new(200, 0), PlantType::Gnome)];
    let grown_gnome = vec![grown(1, 200, 0, PlantType::Gnome)];
    let grown_daisy = vec![grown(1, 200, 0, PlantType::Daisy)];
    assert_eq!(gnome_positions(&seedling_gnome), vec![]);
    assert_eq!(gnome_positions(&grown_gnome), vec![GridPoint::new(200, 0)]);
    assert_eq!(gnome_positions(&grown_daisy), vec![]);

    let click = GridPoint::new(700, 0);
    let player = GridPoint::new(0, 0);
    let mut account = BankAccount::new(10);
    assert!(player_click(click, player, PlantType::Daisy, &seedling_gnome, &mut account).is_none());
    assert!(player_click(click, player, PlantType::Daisy, &grown_daisy, &mut account).is_none());
    assert_eq!(account.balance(), 10);
    let throw = player_click(click, player, PlantType::Daisy, &grown_gnome, &mut account).unwrap();
    assert_eq!(throw.path, vec![player, GridPoint::new(200, 0), click]);
    assert_eq!(account.balance(), 9);
    // a gnome throws 500 far and no farther
    assert!(player_click(
        GridPoint::new(701, 0),
        player,
        PlantType::Daisy,
        &grown_gnome,
        &mut account
    )
    .is_none());
}

#[test]
fn clicks_are_answered_in_order_each_seeing_the_balance_left() {
    let clicks = vec![
        PlayerClickEvent(GridPoint::new(10, 0)),
        PlayerClickEvent(GridPoint::new(20, 0)),
        PlayerClickEvent(GridPoint::new(30, 0)),
    ];
    let mut account = BankAccount::new(4);
    let outcome = on_player_click(
        &clicks,
        Some(GridPoint::new(0, 0)),
        PlantType::Pineapple(0),
        &vec![],
        &mut account,
    );
    assert_eq!(account.balance(), 0);
    assert_eq!(outcome.throws.len(), 2);
    assert_eq!(outcome.throws[0].path, vec![GridPoint::new(0, 0), GridPoint::new(10, 0)]);
    assert_eq!(outcome.throws[1].path, vec![GridPoint::new(0, 0), GridPoint::new(20, 0)]);
    assert_eq!(outcome.balance_updates.len(), 2);
    assert_eq!(
        outcome.sounds,
        vec![SoundRequest { sound: SoundEffect::Invalid, position: GridPoint::new(30, 0) }]
    );
}

#[test]
fn clicks_without_a_player_do_nothing() {
    let clicks = vec![PlayerClickEvent(GridPoint::new(10, 0))];
    let mut account = BankAccount::new(4);
    let outcome = on_player_click(&clicks, None, PlantType::Daisy, &vec![], &mut account);
    assert_eq!(account.balance(), 4);
    assert!(outcome.throws.is_empty());
    assert!(outcome.sounds.is_empty());
    assert!(outcome.balance_updates.is_empty());
}

#[test]
fn click_is_relayed_by_a_gnome_where_the_player_stands() {
    let player = GridPoint::new(0, 0);
    let click = GridPoint::new(400, 0);
    let mut account = BankAccount::new(10);
    // the player alone throws 240 far
    assert!(player_click(click, player, PlantType::Daisy, &vec![], &mut account).is_none());
    // a seedling gnome does not relay yet
    let seedling = vec![plant(EntityId(1), player, PlantType::Gnome)];
    assert!(player_click(click, player, PlantType::Daisy, &seedling, &mut account).is_none());
    assert_eq!(account.balance(), 10);
    // a grown gnome on the player's place throws 500 far
    let gnome = vec![grown(1, 0, 0, PlantType::Gnome)];
    let throw = player_click(click, player, PlantType::Daisy, &gnome, &mut account).unwrap();
    assert_eq!(throw.path, vec![player, click]);
    assert_eq!(account.balance(), 9);
    let edge = GridPoint::new(500, 0);
    let throw = player_click(edge, player, PlantType::Daisy, &gnome, &mut account).unwrap();
    assert_eq!(throw.path, vec![player, edge]);
    assert!(player_click(
        GridPoint::new(501, 0),
        player,
        PlantType::Daisy,
        &gnome,
        &mut account
    )
    .is_none());
    assert_eq!(account.balance(), 8);
}
