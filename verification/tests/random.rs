use farm_defense::random::{draw_rolls, roll_below, roll_for};

#[test]
fn rolls_stay_below_their_bound() {
    for bound in [1u32, 2, 3, 12, 921, u32::MAX] {
        for _ in 0..200 {
            assert!(roll_below(bound) < bound);
        }
    }
    assert_eq!(roll_below(1), 0);
    assert_eq!(roll_below(0), 0);
}

#[test]
fn rolls_are_not_all_the_same() {
    let rolls = draw_rolls(200, 12);
    assert_eq!(rolls.len(), 200);
    assert!(rolls.iter().all(|r| *r < 12));
    assert!(rolls.iter().any(|r| *r != rolls[0]));
    assert_eq!(draw_rolls(0, 12), vec![]);
    assert_eq!(draw_rolls(3, 0), vec![0, 0, 0]);
}

#[test]
fn rolls_that_run_out_count_as_zero() {
    let rolls = vec![7, 8];
    assert_eq!(roll_for(&rolls, 0), 7);
    assert_eq!(roll_for(&rolls, 1), 8);
    assert_eq!(roll_for(&rolls, 2), 0);
    assert_eq!(roll_for(&vec![], 0), 0);
}
