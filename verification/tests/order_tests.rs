use todo_app::order::{select_in_order, stable_order};

#[test]
fn orders_by_key_ascending() {
    assert_eq!(stable_order(&vec![30, 10, 20]), vec![1, 2, 0]);
}

#[test]
fn keeps_equal_keys_in_their_order() {
    assert_eq!(stable_order(&vec![5, 1, 5, 1, 5]), vec![1, 3, 0, 2, 4]);
}

#[test]
fn orders_nothing_and_one() {
    assert_eq!(stable_order(&vec![]), Vec::<usize>::new());
    assert_eq!(stable_order(&vec![7]), vec![0]);
}

#[test]
fn orders_the_ends_of_the_range() {
    assert_eq!(stable_order(&vec![i64::MAX, 0, i64::MIN, 0]), vec![2, 1, 3, 0]);
}

#[test]
fn leaves_a_sorted_sequence_as_it_is() {
    assert_eq!(stable_order(&vec![1, 2, 3, 4]), vec![0, 1, 2, 3]);
    assert_eq!(stable_order(&vec![4, 3, 2, 1]), vec![3, 2, 1, 0]);
}

#[test]
fn selects_only_positions_with_a_key() {
    let keys = vec![Some(3), None, Some(1), None, Some(3), Some(2)];
    assert_eq!(select_in_order(&keys), vec![2, 5, 0, 4]);
}

#[test]
fn selects_nothing_where_no_position_has_a_key() {
    assert_eq!(select_in_order(&vec![None, None]), Vec::<usize>::new());
    assert_eq!(select_in_order(&vec![]), Vec::<usize>::new());
}
