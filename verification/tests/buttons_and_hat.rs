use input_capture::buttons::{first_new_button, hat_direction, hat_turn, holds_button};
use input_capture::events::HatDirection;

#[test]
fn button_that_goes_down_is_reported() {
    assert_eq!(first_new_button(&vec![3], &vec![3, 7]), Some(7));
}

#[test]
fn button_that_comes_up_is_not_reported() {
    assert_eq!(first_new_button(&vec![3, 7], &vec![3]), None);
}

#[test]
fn button_that_stays_down_is_not_reported() {
    assert_eq!(first_new_button(&vec![3, 7], &vec![7, 3]), None);
    assert_eq!(first_new_button(&vec![], &vec![]), None);
}

#[test]
fn lowest_of_several_new_buttons_is_reported() {
    assert_eq!(first_new_button(&vec![], &vec![9, 4, 6]), Some(4));
    assert_eq!(first_new_button(&vec![4], &vec![9, 4, 6]), Some(6));
}

#[test]
fn list_holds_what_is_in_it() {
    assert!(holds_button(&vec![1, 2, 3], 2));
    assert!(!holds_button(&vec![1, 2, 3], 4));
    assert!(!holds_button(&vec![], 0));
}

#[test]
fn hat_values_fall_to_four_directions() {
    assert_eq!(hat_direction(0), Some(HatDirection::Up));
    assert_eq!(hat_direction(1), Some(HatDirection::Up));
    assert_eq!(hat_direction(2), Some(HatDirection::Right));
    assert_eq!(hat_direction(3), Some(HatDirection::Right));
    assert_eq!(hat_direction(4), Some(HatDirection::Down));
    assert_eq!(hat_direction(5), Some(HatDirection::Down));
    assert_eq!(hat_direction(6), Some(HatDirection::Left));
    assert_eq!(hat_direction(7), Some(HatDirection::Left));
}

#[test]
fn centered_hat_has_no_direction() {
    assert_eq!(hat_direction(8), None);
    assert_eq!(hat_direction(15), None);
    assert_eq!(hat_direction(9), None);
    assert_eq!(hat_direction(65535), None);
}

#[test]
fn hat_that_leaves_its_center_turns_to_its_direction() {
    assert_eq!(hat_turn(8, 0), Some(HatDirection::Up));
    assert_eq!(hat_turn(15, 0), Some(HatDirection::Up));
    assert_eq!(hat_turn(8, 1), Some(HatDirection::Up));
    assert_eq!(hat_turn(15, 1), Some(HatDirection::Up));
    assert_eq!(hat_turn(8, 2), Some(HatDirection::Right));
    assert_eq!(hat_turn(8, 5), Some(HatDirection::Down));
    assert_eq!(hat_turn(15, 7), Some(HatDirection::Left));
}

#[test]
fn hat_that_changes_its_direction_turns_to_the_new_one() {
    assert_eq!(hat_turn(0, 2), Some(HatDirection::Right));
    assert_eq!(hat_turn(1, 2), Some(HatDirection::Right));
    assert_eq!(hat_turn(6, 0), Some(HatDirection::Up));
}

#[test]
fn hat_that_keeps_its_direction_or_comes_to_rest_turns_to_none() {
    assert_eq!(hat_turn(0, 0), None);
    assert_eq!(hat_turn(0, 1), None);
    assert_eq!(hat_turn(3, 2), None);
    assert_eq!(hat_turn(0, 8), None);
    assert_eq!(hat_turn(7, 15), None);
    assert_eq!(hat_turn(8, 15), None);
    assert_eq!(hat_turn(8, 100), None);
}
