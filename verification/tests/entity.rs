use farm_defense::entity::{EntityId, IdSource};
use farm_defense::geometry::{clamp_sum, GridPoint};

#[test]
fn ids_are_handed_out_in_order() {
    let mut ids = IdSource::new();
    assert!(ids.is_fresh());
    assert_eq!(ids.allocate(), EntityId(0));
    assert_eq!(ids.allocate(), EntityId(1));
    assert_eq!(ids.allocate(), EntityId(2));
    assert_eq!(ids.next, 3);
}

#[test]
fn ids_stop_at_the_largest_number() {
    let mut ids = IdSource { next: u64::MAX - 1 };
    assert!(ids.is_fresh());
    assert_eq!(ids.allocate(), EntityId(u64::MAX - 1));
    assert!(!ids.is_fresh());
    assert_eq!(ids.allocate(), EntityId(u64::MAX));
    assert_eq!(ids.allocate(), EntityId(u64::MAX));
    assert_eq!(ids.next, u64::MAX);
}

#[test]
fn points_measure_squared_distance() {
    let a = GridPoint::new(1, 2);
    let b = GridPoint::new(4, 6);
    assert_eq!(a.distance_squared(&b), 25);
    assert_eq!(b.distance_squared(&a), 25);
    assert_eq!(a.distance_squared(&a), 0);
    assert!(a.is_within_reach(&b, 5));
    assert!(!a.is_strictly_within(&b, 5));
    assert!(a.is_strictly_within(&b, 6));
    assert!(!a.is_within_reach(&b, 4));
}

#[test]
fn points_move_within_the_grid() {
    let a = GridPoint::new(1, 2);
    assert_eq!(a.translated(10, -10), GridPoint::new(11, -8));
    let edge = GridPoint::new(i32::MAX, i32::MIN);
    assert_eq!(edge.translated(1, -1), edge);
    assert_eq!(edge.translated(-1, 1), GridPoint::new(i32::MAX - 1, i32::MIN + 1));
    assert_eq!(clamp_sum(i32::MAX, i32::MAX), i32::MAX);
    assert_eq!(clamp_sum(i32::MIN, i32::MIN), i32::MIN);
    assert_eq!(clamp_sum(-5, 7), 2);
}
