//! The timing of a detection session.
//!
//! A session waits for a first input for a given time. Once an input has
//! been seen, it goes on collecting for a second, independent time, and
//! then it is over. Times are whole seconds that have passed: a time has
//! run out when as many whole seconds have passed as it has.

use crate::events::{DetectedInput, DetectionComplete};
use vstd::prelude::*;

verus! {

/// What a session does next.
#[derive(Clone, Debug)]
pub enum SessionStep {
    /// Poll the devices, publish what the poll gives, and pause.
    Poll,
    /// Publish the signal and stop.
    Complete(DetectionComplete),
}

/// Whether a session is over.
///
/// `since_first_input_secs` is `None` as long as no input was seen. Before
/// the first input the session is over when the time to wait has run out;
/// after it, when the time to collect has run out, however long the
/// session has lasted.
pub open spec fn session_over(
    since_start_secs: u64,
    since_first_input_secs: Option<u64>,
    initial_timeout_secs: u64,
    collect_duration_secs: u64,
) -> bool {
    match since_first_input_secs {
        Some(collected) => collected >= collect_duration_secs,
        None => since_start_secs >= initial_timeout_secs,
    }
}

/// Decides at the head of each round of a session whether it goes on.
///
/// Returns the step to take: the signal that ends the session, which
/// carries the identifier of the session, or another poll.
pub fn wait_for_inputs_with_events(
    session_id: &String,
    since_start_secs: u64,
    since_first_input_secs: Option<u64>,
    initial_timeout_secs: u64,
    collect_duration_secs: u64,
) -> (step: SessionStep)
    ensures
        match step {
            SessionStep::Complete(signal) => session_over(
                since_start_secs,
                since_first_input_secs,
                initial_timeout_secs,
                collect_duration_secs,
            ) && signal.session_id@ == session_id@,
            SessionStep::Poll => !session_over(
                since_start_secs,
                since_first_input_secs,
                initial_timeout_secs,
                collect_duration_secs,
            ),
        },
{
    let over = match since_first_input_secs {
        Some(collected) => collected >= collect_duration_secs,
        None => since_start_secs >= initial_timeout_secs,
    };
    if over {
        SessionStep::Complete(DetectionComplete { session_id: session_id.clone() })
    } else {
        SessionStep::Poll
    }
}

/// Whether a poll has seen the first input of a session: it has, where no
/// input was seen before and the poll gave at least one.
pub fn marks_first_input(seen_before: bool, inputs: &Vec<DetectedInput>) -> (first: bool)
    ensures
        first == (!seen_before && inputs@.len() > 0),
{
    !seen_before && inputs.len() > 0
}

/// What a wait for a single input does next.
#[derive(Clone, Debug)]
pub enum WaitStep {
    /// The wait is over: this input came first.
    Detected(DetectedInput),
    /// Nothing came: pause and poll again while there is time.
    Pause,
}

/// Whether a wait for a single input goes on: less time has passed than
/// it is given.
pub fn wait_running(elapsed_secs: u64, timeout_secs: u64) -> (running: bool)
    ensures
        running == (elapsed_secs < timeout_secs),
{
    elapsed_secs < timeout_secs
}

/// Takes what one poll gave while waiting for a single input: the first
/// input of the poll ends the wait.
pub fn wait_for_input(inputs: Vec<DetectedInput>) -> (step: WaitStep)
    ensures
        match step {
            WaitStep::Detected(input) => inputs@.len() > 0 && input == inputs@[0],
            WaitStep::Pause => inputs@.len() == 0,
        },
{
    let mut inputs = inputs;
    if inputs.len() > 0 {
        WaitStep::Detected(inputs.swap_remove(0))
    } else {
        WaitStep::Pause
    }
}

} // verus!
