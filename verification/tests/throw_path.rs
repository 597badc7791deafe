use farm_defense::geometry::GridPoint;
use farm_defense::player::throw_path;

#[test]
fn test_path_simple() {
    let origin = GridPoint::new(0, 0);
    let midpoints = vec![];
    let dest = GridPoint::new(10, 10);

    let path = throw_path(origin, midpoints, dest, 120, 0);
    assert!(path.is_some());

    let path = path.unwrap();
    assert_eq!(path.len(), 2);
    assert_eq!(path[0], GridPoint::new(0, 0));
    assert_eq!(path[1], GridPoint::new(10, 10));
}

#[test]
fn test_path_complex() {
    let origin = GridPoint::new(0, 0);
    let midpoints = vec![GridPoint::new(5, 1), GridPoint::new(5, 100), GridPoint::new(4, 0)];
    let dest = GridPoint::new(7, 1);

    let origin_radius = 5;
    let midpoint_radius = 3;

    let path = throw_path(origin, midpoints, dest, origin_radius, midpoint_radius);
    assert!(path.is_some());

    let path = path.unwrap();
    assert_eq!(path.len(), 4);
    assert_eq!(path[0], GridPoint::new(0, 0));
    assert_eq!(path[1], GridPoint::new(4, 0));
    assert_eq!(path[2], GridPoint::new(5, 1));
    assert_eq!(path[3], GridPoint::new(7, 1));
}

#[test]
fn test_path_simple_too_far() {
    let origin = GridPoint::new(0, 0);
    let midpoints = vec![];
    let dest = GridPoint::new(10, 10);

    let path = throw_path(origin, midpoints, dest, 2, 0);
    assert!(path.is_none());
}

#[test]
fn test_path_complex_too_far() {
    let origin = GridPoint::new(0, 0);
    let midpoints = vec![GridPoint::new(5, 1), GridPoint::new(5, 100), GridPoint::new(4, 0)];
    let dest = GridPoint::new(7, 1);

    let origin_radius = 4;
    let midpoint_radius = 1;

    let path = throw_path(origin, midpoints, dest, origin_radius, midpoint_radius);
    println!("{:?}", path);
    assert!(path.is_none());
}

#[test]
fn path_to_the_origin_is_the_origin_alone() {
    let origin = GridPoint::new(3, -4);
    let path = throw_path(origin, vec![GridPoint::new(100, 100)], origin, 0, 0).unwrap();
    assert_eq!(path, vec![origin]);
}

#[test]
fn path_on_the_edge_of_the_radius_is_in_reach() {
    // distance squared is 9 + 16 = 25 = 5 * 5
    let path = throw_path(GridPoint::new(0, 0), vec![], GridPoint::new(3, 4), 5, 0);
    assert_eq!(path, Some(vec![GridPoint::new(0, 0), GridPoint::new(3, 4)]));
    let path = throw_path(GridPoint::new(0, 0), vec![], GridPoint::new(3, 4), 4, 0);
    assert_eq!(path, None);
}

#[test]
fn path_relays_use_their_own_radius() {
    // The origin reaches 10 far, a relay 100 far.
    let origin = GridPoint::new(0, 0);
    let relay = GridPoint::new(10, 0);
    let dest = GridPoint::new(110, 0);
    let path = throw_path(origin, vec![relay], dest, 10, 100).unwrap();
    assert_eq!(path, vec![origin, relay, dest]);
    // One pixel farther and the relay cannot reach.
    assert_eq!(throw_path(origin, vec![relay], GridPoint::new(111, 0), 10, 100), None);
}

#[test]
fn path_midpoint_on_the_origin_relays() {
    // A midpoint that stands on the origin is reached by a throw of no
    // length, and throws the seed on as far as a midpoint throws.
    let origin = GridPoint::new(0, 0);
    let path = throw_path(origin, vec![origin], GridPoint::new(3, 0), 1, 5);
    assert_eq!(path, Some(vec![origin, GridPoint::new(3, 0)]));
    let path = throw_path(origin, vec![origin], GridPoint::new(4, 0), 1, 5);
    assert_eq!(path, Some(vec![origin, GridPoint::new(4, 0)]));
    let path = throw_path(origin, vec![origin], GridPoint::new(5, 0), 1, 5);
    assert_eq!(path, Some(vec![origin, GridPoint::new(5, 0)]));
    // one pixel farther than the midpoint throws
    assert_eq!(throw_path(origin, vec![origin], GridPoint::new(6, 0), 1, 5), None);
    // without the midpoint the origin throws 1 far
    assert_eq!(throw_path(origin, vec![], GridPoint::new(3, 0), 1, 5), None);
    assert_eq!(
        throw_path(origin, vec![GridPoint::new(0, 9)], GridPoint::new(3, 0), 1, 5),
        None
    );
}

#[test]
fn path_midpoint_on_the_origin_does_not_shorten_the_reach() {
    // The player throws farther than the midpoint that stands on the origin.
    let origin = GridPoint::new(2, 2);
    let path = throw_path(origin, vec![origin], GridPoint::new(2, 12), 10, 3);
    assert_eq!(path, Some(vec![origin, GridPoint::new(2, 12)]));
    assert_eq!(throw_path(origin, vec![origin], GridPoint::new(2, 13), 10, 3), None);
}

#[test]
fn path_midpoint_on_the_origin_relays_to_other_midpoints() {
    let origin = GridPoint::new(0, 0);
    let far = GridPoint::new(5, 0);
    let dest = GridPoint::new(10, 0);
    let path = throw_path(origin, vec![far, origin], dest, 1, 5);
    assert_eq!(path, Some(vec![origin, far, dest]));
    assert_eq!(throw_path(origin, vec![far], dest, 1, 5), None);
}

#[test]
fn path_midpoint_on_the_destination_is_the_destination() {
    let origin = GridPoint::new(0, 0);
    let dest = GridPoint::new(3, 0);
    assert_eq!(throw_path(origin, vec![dest], dest, 3, 0), Some(vec![origin, dest]));
    assert_eq!(throw_path(origin, vec![dest], dest, 2, 9), None);
}

#[test]
fn path_holds_no_point_twice_and_each_hop_is_in_reach() {
    let origin = GridPoint::new(0, 0);
    let midpoints = vec![
        GridPoint::new(2, 0),
        GridPoint::new(4, 0),
        GridPoint::new(2, 2),
        GridPoint::new(6, 0),
        GridPoint::new(4, 2),
    ];
    let dest = GridPoint::new(8, 0);
    let path = throw_path(origin, midpoints.clone(), dest, 2, 2).unwrap();
    assert_eq!(path[0], origin);
    assert_eq!(path[path.len() - 1], dest);
    for i in 0..path.len() {
        for j in (i + 1)..path.len() {
            assert_ne!(path[i], path[j]);
        }
    }
    for i in 0..path.len() - 1 {
        assert!(path[i].distance_squared(&path[i + 1]) <= 4);
        assert!(path[i + 1] == dest || midpoints.contains(&path[i + 1]));
    }
}

#[test]
fn path_with_far_coordinates_does_not_overflow() {
    let origin = GridPoint::new(i32::MIN, i32::MIN);
    let dest = GridPoint::new(i32::MAX, i32::MAX);
    assert_eq!(throw_path(origin, vec![], dest, u32::MAX, 0), None);
    assert_eq!(
        origin.distance_squared(&dest),
        2 * (u32::MAX as u128) * (u32::MAX as u128)
    );
}
