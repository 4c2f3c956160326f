use input_capture::axis::{AxisEdgeState, AxisValue, Direction};

fn tenths(n: i64) -> AxisValue {
    AxisValue { num: n, den: 10 }
}

fn hundredths(n: i64) -> AxisValue {
    AxisValue { num: n, den: 100 }
}

fn run(state: &mut AxisEdgeState, samples: &[AxisValue]) -> Vec<Option<Direction>> {
    samples.iter().map(|v| state.step(*v)).collect()
}

#[test]
fn thresholds_are_strict() {
    assert!(!tenths(5).is_above_trigger());
    assert!(hundredths(51).is_above_trigger());
    assert!(!tenths(-5).is_below_trigger());
    assert!(hundredths(-51).is_below_trigger());
    assert!(!tenths(3).is_centered());
    assert!(!tenths(-3).is_centered());
    assert!(hundredths(29).is_centered());
    assert!(hundredths(-29).is_centered());
    assert!(tenths(0).is_centered());
}

#[test]
fn movement_floor_is_three_tenths() {
    assert!(!tenths(6).has_moved_from(&tenths(3)));
    assert!(hundredths(61).has_moved_from(&tenths(3)));
    assert!(tenths(-6).has_moved_from(&tenths(6)));
    assert!(!tenths(6).has_moved_from(&tenths(6)));
    // fractions over different denominators
    let third = AxisValue { num: 1, den: 3 };
    let two_thirds = AxisValue { num: 2, den: 3 };
    assert!(two_thirds.has_moved_from(&third));
    assert!(!two_thirds.has_moved_from(&tenths(5)));
}

#[test]
fn two_deflections_with_rest_between_fire_twice() {
    let mut state = AxisEdgeState::new(tenths(0));
    let events = run(&mut state, &[tenths(6), tenths(2), tenths(6)]);
    assert_eq!(events, vec![Some(Direction::Positive), None, Some(Direction::Positive)]);
}

#[test]
fn long_deflections_with_rest_between_fire_twice() {
    let mut state = AxisEdgeState::new(tenths(0));
    let events = run(
        &mut state,
        &[tenths(6), tenths(8), tenths(10), tenths(1), tenths(0), tenths(7), tenths(9)],
    );
    let positives = events.iter().filter(|e| **e == Some(Direction::Positive)).count();
    let negatives = events.iter().filter(|e| **e == Some(Direction::Negative)).count();
    assert_eq!(positives, 2);
    assert_eq!(negatives, 0);
}

#[test]
fn second_deflection_needs_movement_from_rest() {
    let mut state = AxisEdgeState::new(tenths(0));
    let events = run(&mut state, &[tenths(6), hundredths(29), hundredths(55)]);
    assert_eq!(events, vec![Some(Direction::Positive), None, None]);
}

#[test]
fn held_deflection_fires_once() {
    let mut state = AxisEdgeState::new(tenths(0));
    let events = run(&mut state, &[tenths(6), tenths(7), tenths(10), tenths(6), tenths(4)]);
    assert_eq!(events, vec![Some(Direction::Positive), None, None, None, None]);
    assert_eq!(state.last_triggered_direction, Some(Direction::Positive));
    assert_eq!(state.last_value, tenths(6));
}

#[test]
fn reversal_without_rest_fires_the_other_direction() {
    let mut state = AxisEdgeState::new(tenths(0));
    let events = run(&mut state, &[tenths(6), tenths(-6)]);
    assert_eq!(events, vec![Some(Direction::Positive), Some(Direction::Negative)]);
    assert_eq!(state.last_triggered_direction, Some(Direction::Negative));
}

#[test]
fn centered_sample_clears_the_direction() {
    let mut state = AxisEdgeState::new(tenths(0));
    assert_eq!(state.step(tenths(-8)), Some(Direction::Negative));
    assert_eq!(state.step(tenths(1)), None);
    assert_eq!(state.last_triggered_direction, None);
    assert_eq!(state.last_value, tenths(1));
}

#[test]
fn sample_between_the_bands_changes_nothing() {
    let mut state = AxisEdgeState::new(tenths(0));
    assert_eq!(state.step(tenths(4)), None);
    assert_eq!(state, AxisEdgeState::new(tenths(0)));
}

#[test]
fn magnitude_and_distance_take_any_fraction() {
    assert!(hundredths(16).exceeds_magnitude(3, 20));
    assert!(!hundredths(15).exceeds_magnitude(3, 20));
    assert!(hundredths(-16).exceeds_magnitude(3, 20));
    assert!(hundredths(50).exceeds_distance(&hundredths(34), 3, 20));
    assert!(!hundredths(50).exceeds_distance(&hundredths(35), 3, 20));
}
