use devserver::session::answer_wake;
use devserver::wake::BroadcastState;
use devserver::pipeline::BuildOutcome;

fn failed(text: &str) -> BuildOutcome {
    BuildOutcome::Failed(String::from(text))
}

#[test]
fn new_state_is_clean_and_releases_nobody() {
    let state = BroadcastState::new();
    assert_eq!(state.current(), BuildOutcome::Clean);
    let waiter = state.begin_wait();
    assert_eq!(state.released(&waiter), None);
    assert!(state.can_publish());
}

#[test]
fn waiting_session_is_released_by_the_wake() {
    let mut state = BroadcastState::new();
    let waiter = state.begin_wait();
    state.publish(failed("X"));
    assert_eq!(state.released(&waiter), Some(failed("X")));
}

#[test]
fn late_session_waits_for_the_next_wake() {
    let mut state = BroadcastState::new();
    state.publish(failed("old"));
    let waiter = state.begin_wait();
    assert_eq!(state.released(&waiter), None);
    state.publish(BuildOutcome::Clean);
    assert_eq!(state.released(&waiter), Some(BuildOutcome::Clean));
}

#[test]
fn clean_after_clean_is_still_a_wake() {
    let mut state = BroadcastState::new();
    let waiter = state.begin_wait();
    state.publish(BuildOutcome::Clean);
    assert_eq!(state.released(&waiter), Some(BuildOutcome::Clean));
    let again = state.begin_wait();
    state.publish(BuildOutcome::Clean);
    assert_eq!(state.released(&again), Some(BuildOutcome::Clean));
}

#[test]
fn failure_after_failure_is_still_a_wake() {
    let mut state = BroadcastState::new();
    state.publish(failed("one"));
    let waiter = state.begin_wait();
    state.publish(failed("two"));
    assert_eq!(state.released(&waiter), Some(failed("two")));
}

#[test]
fn all_waiting_sessions_read_the_same_outcome() {
    let mut state = BroadcastState::new();
    let first = state.begin_wait();
    state.publish(failed("a"));
    let second = state.begin_wait();
    state.publish(failed("b"));
    assert_eq!(state.released(&first), Some(failed("b")));
    assert_eq!(state.released(&second), Some(failed("b")));
}

#[test]
fn session_never_reads_an_older_outcome() {
    let mut state = BroadcastState::new();
    let waiter = state.begin_wait();
    state.publish(failed("stale"));
    state.publish(BuildOutcome::Clean);
    assert_eq!(state.released(&waiter), Some(BuildOutcome::Clean));
    assert_eq!(state.current(), BuildOutcome::Clean);
}

#[test]
fn rebuild_runs_the_actions_and_wakes() {
    let actions: Vec<Box<dyn Fn() -> Result<(), String>>> =
        vec![Box::new(|| Ok(())), Box::new(|| Err(String::from("X"))), Box::new(|| Ok(()))];
    let mut state = BroadcastState::new();
    let waiter = state.begin_wait();
    state.rebuild(&actions);
    assert_eq!(state.released(&waiter), Some(failed("X")));
}

#[test]
fn rebuild_without_actions_wakes_with_clean() {
    let actions: Vec<Box<dyn Fn() -> Result<(), String>>> = Vec::new();
    let mut state = BroadcastState::new();
    state.publish(failed("before"));
    let waiter = state.begin_wait();
    state.rebuild(&actions);
    assert_eq!(state.released(&waiter), Some(BuildOutcome::Clean));
}

#[test]
fn released_session_writes_one_frame() {
    let mut state = BroadcastState::new();
    let waiter = state.begin_wait();
    let mut stream = Vec::new();
    assert!(!answer_wake(&state, &waiter, &mut stream));
    assert!(stream.is_empty());
    state.publish(failed("e"));
    assert!(answer_wake(&state, &waiter, &mut stream));
    assert_eq!(stream, vec![129u8, 1u8, b'e']);
}

#[test]
fn sessions_released_together_write_the_same_frame() {
    let mut state = BroadcastState::new();
    let first = state.begin_wait();
    state.publish(failed("old"));
    let second = state.begin_wait();
    state.publish(BuildOutcome::Clean);
    let late = state.begin_wait();
    let mut one = Vec::new();
    let mut two = Vec::new();
    let mut three = Vec::new();
    assert!(answer_wake(&state, &first, &mut one));
    assert!(answer_wake(&state, &second, &mut two));
    assert!(!answer_wake(&state, &late, &mut three));
    assert_eq!(one, vec![129u8, 0u8]);
    assert_eq!(two, one);
    assert!(three.is_empty());
}
