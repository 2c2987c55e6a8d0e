use rusty_todo::utils::check_priority;

#[test]
fn levels_one_to_five_are_accepted() {
    for p in 1..=5 {
        assert_eq!(check_priority(&Some(p), 1, 5, 3), Some(p));
    }
}

#[test]
fn other_levels_are_refused() {
    for p in [0, 6, -1, 100, i32::MIN, i32::MAX] {
        assert_eq!(check_priority(&Some(p), 1, 5, 3), None);
    }
}

#[test]
fn missing_level_takes_the_default() {
    assert_eq!(check_priority(&None, 1, 5, 3), Some(3));
    assert_eq!(check_priority(&None, 1, 5, 1), Some(1));
}

#[test]
fn named_bounds_do_not_move_the_levels() {
    assert_eq!(check_priority(&Some(6), 1, 10, 3), None);
    assert_eq!(check_priority(&Some(1), 2, 5, 3), Some(1));
}
