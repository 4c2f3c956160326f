use input_capture::events::{gamepad_button_input, DetectedInput};
use input_capture::session::{
    marks_first_input, wait_for_input, wait_for_inputs_with_events, wait_running, SessionStep,
    WaitStep,
};

fn input(button: u32) -> DetectedInput {
    gamepad_button_input(&"s".to_string(), 0, button, 0x1000, &vec![])
}

fn is_complete(step: &SessionStep) -> bool {
    matches!(step, SessionStep::Complete(_))
}

#[test]
fn session_waits_for_the_first_input_until_the_timeout() {
    let id = "abc".to_string();
    assert!(!is_complete(&wait_for_inputs_with_events(&id, 0, None, 10, 2)));
    assert!(!is_complete(&wait_for_inputs_with_events(&id, 9, None, 10, 2)));
    assert!(is_complete(&wait_for_inputs_with_events(&id, 10, None, 10, 2)));
    assert!(is_complete(&wait_for_inputs_with_events(&id, 11, None, 10, 2)));
}

#[test]
fn session_collects_for_its_own_time_after_the_first_input() {
    let id = "abc".to_string();
    // the time to wait no longer counts once an input was seen
    assert!(!is_complete(&wait_for_inputs_with_events(&id, 100, Some(0), 10, 2)));
    assert!(!is_complete(&wait_for_inputs_with_events(&id, 100, Some(1), 10, 2)));
    assert!(is_complete(&wait_for_inputs_with_events(&id, 100, Some(2), 10, 2)));
    assert!(is_complete(&wait_for_inputs_with_events(&id, 3, Some(2), 10, 2)));
}

#[test]
fn session_without_time_is_over_at_once() {
    let id = "abc".to_string();
    assert!(is_complete(&wait_for_inputs_with_events(&id, 0, None, 0, 5)));
    assert!(is_complete(&wait_for_inputs_with_events(&id, 0, Some(0), 5, 0)));
}

#[test]
fn completion_carries_the_session() {
    match wait_for_inputs_with_events(&"session-42".to_string(), 5, None, 5, 1) {
        SessionStep::Complete(signal) => assert_eq!(signal.session_id, "session-42"),
        SessionStep::Poll => panic!("the session is over"),
    }
}

#[test]
fn first_input_is_marked_once() {
    assert!(marks_first_input(false, &vec![input(1)]));
    assert!(!marks_first_input(false, &vec![]));
    assert!(!marks_first_input(true, &vec![input(1)]));
    assert!(!marks_first_input(true, &vec![]));
}

#[test]
fn single_wait_runs_until_the_timeout() {
    assert!(wait_running(0, 1));
    assert!(!wait_running(1, 1));
    assert!(!wait_running(0, 0));
    assert!(wait_running(u64::MAX - 1, u64::MAX));
}

#[test]
fn single_wait_ends_with_the_first_input_of_a_poll() {
    match wait_for_input(vec![input(3), input(1), input(2)]) {
        WaitStep::Detected(found) => assert_eq!(found.input_string, "gp1_button3"),
        WaitStep::Pause => panic!("an input came"),
    }
    assert!(matches!(wait_for_input(vec![]), WaitStep::Pause));
}
