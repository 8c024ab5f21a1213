use card_test::hands::{change_hand_cards, hand_order};

#[test]
fn hand_order_goes_left_to_right_with_ties_in_list_order() {
    assert_eq!(hand_order(&vec![5, -3, 5, 0]), vec![1, 3, 0, 2]);
}

#[test]
fn hand_order_reversed_hand() {
    assert_eq!(hand_order(&vec![3, 2, 1]), vec![2, 1, 0]);
}

#[test]
fn hand_order_ordered_hand_keeps_slots() {
    assert_eq!(hand_order(&vec![1, 2, 2, 3, 10]), vec![0, 1, 2, 3, 4]);
}

#[test]
fn hand_order_all_at_one_place_keeps_list_order() {
    assert_eq!(hand_order(&vec![7, 7, 7]), vec![0, 1, 2]);
}

#[test]
fn hand_order_is_the_same_when_laid_out_again() {
    let keys = vec![4, -1, 9, -1, 0, 4];
    let first = hand_order(&keys);
    let second = hand_order(&keys);
    assert_eq!(first, second);
    assert_eq!(first, vec![1, 3, 4, 0, 5, 2]);
}

#[test]
fn hand_order_extreme_positions() {
    assert_eq!(hand_order(&vec![i64::MAX, i64::MIN, 0]), vec![1, 2, 0]);
}

#[test]
fn hand_order_empty_hand() {
    assert_eq!(hand_order(&vec![]), Vec::<usize>::new());
}

#[test]
fn change_hand_cards_without_cards_lays_nothing_out() {
    assert_eq!(change_hand_cards(&vec![]), None);
}

#[test]
fn change_hand_cards_single_card() {
    assert_eq!(change_hand_cards(&vec![-42]), Some(vec![0]));
}

#[test]
fn change_hand_cards_assigns_slots_by_position() {
    assert_eq!(change_hand_cards(&vec![30, 10, 20]), Some(vec![1, 2, 0]));
}
