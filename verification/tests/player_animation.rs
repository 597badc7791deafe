use farm_defense::geometry::GridPoint;
use farm_defense::plant::PlantType;
use farm_defense::player::{player, ThrowSeedEvent};
use farm_defense::player_animation::{animate_throw_seed, PlayerAnimation, PlayerAnimationState};
use farm_defense::sound::{SoundEffect, SoundRequest};

fn throw(from_player: bool, path: Vec<GridPoint>) -> ThrowSeedEvent {
    ThrowSeedEvent { from_player, path, seed_type: PlantType::Daisy }
}

#[test]
fn animation_starts_idling() {
    let a = PlayerAnimation::new();
    assert_eq!(a.frame(), 0);
    assert_eq!(a.state, PlayerAnimationState::Idling);
    assert_eq!(a.timer.duration(), 500_000);
    let p = player();
    assert_eq!(p.position, GridPoint::new(0, 0));
    assert_eq!(p.animation, a);
}

#[test]
fn animation_frames_by_state() {
    assert_eq!(PlayerAnimation::idling().frame(), 0);
    assert_eq!(PlayerAnimation::planting(true).frame(), 1);
    assert_eq!(PlayerAnimation::planting(false).frame(), 2);
    assert_eq!(PlayerAnimation::mailing().frame(), 1);
    assert_eq!(PlayerAnimation::mailing().timer.duration(), 250_000);
}

#[test]
fn animation_changes_state_only_when_it_differs() {
    let mut a = PlayerAnimation::new();
    a.update_timer(100_000);
    assert_eq!(a.timer.elapsed(), 100_000);
    a.update_state(PlayerAnimationState::Idling);
    assert_eq!(a.timer.elapsed(), 100_000);
    a.update_state(PlayerAnimationState::Planting(true));
    assert_eq!(a.state, PlayerAnimationState::Planting(true));
    assert_eq!(a.frame(), 1);
    assert_eq!(a.timer.elapsed(), 0);
    a.update_state(PlayerAnimationState::Planting(false));
    assert_eq!(a.frame(), 2);
}

#[test]
fn animation_goes_back_to_idling_when_its_time_is_up() {
    let mut a = PlayerAnimation::planting(false);
    a.update_timer(499_999);
    assert_eq!(a.state, PlayerAnimationState::Planting(false));
    a.update_timer(1);
    assert_eq!(a, PlayerAnimation::idling());
    // an idling animation whose time is up stays as it is
    a.update_timer(500_000);
    assert_eq!(a.state, PlayerAnimationState::Idling);
    assert!(a.timer.finished());
    a.update_timer(500_000);
    assert_eq!(a.frame(), 0);
}

#[test]
fn throwing_shows_the_player_planting_to_the_side_of_the_throw() {
    let mut a = PlayerAnimation::new();
    let sounds = animate_throw_seed(
        &mut a,
        &vec![throw(true, vec![GridPoint::new(10, 0), GridPoint::new(5, 50)])],
    );
    assert_eq!(a.state, PlayerAnimationState::Planting(true));
    assert_eq!(
        sounds,
        vec![SoundRequest { sound: SoundEffect::Throw, position: GridPoint::new(10, 0) }]
    );
    let mut a = PlayerAnimation::new();
    animate_throw_seed(
        &mut a,
        &vec![throw(true, vec![GridPoint::new(10, 0), GridPoint::new(10, 50)])],
    );
    assert_eq!(a.state, PlayerAnimationState::Planting(false));
    let mut a = PlayerAnimation::new();
    animate_throw_seed(&mut a, &vec![throw(true, vec![GridPoint::new(10, 0)])]);
    assert_eq!(a.state, PlayerAnimationState::Planting(false));
}

#[test]
fn throws_by_relays_are_passed_over() {
    let mut a = PlayerAnimation::new();
    let sounds = animate_throw_seed(
        &mut a,
        &vec![
            throw(false, vec![GridPoint::new(10, 0), GridPoint::new(5, 50)]),
            throw(true, vec![]),
        ],
    );
    assert_eq!(a, PlayerAnimation::new());
    assert!(sounds.is_empty());
}
