use devserver::pipeline::{outcome_of, run_actions, BuildOutcome};
use std::cell::Cell;
use std::rc::Rc;

type Action = Box<dyn Fn() -> Result<(), String>>;

fn counted(calls: &Rc<Cell<usize>>, result: Result<(), String>) -> Action {
    let calls = Rc::clone(calls);
    Box::new(move || {
        calls.set(calls.get() + 1);
        result.clone()
    })
}

#[test]
fn failure_stops_the_build() {
    let first = Rc::new(Cell::new(0));
    let second = Rc::new(Cell::new(0));
    let third = Rc::new(Cell::new(0));
    let actions = vec![
        counted(&first, Ok(())),
        counted(&second, Err(String::from("X"))),
        counted(&third, Ok(())),
    ];
    assert_eq!(run_actions(&actions), BuildOutcome::Failed(String::from("X")));
    assert_eq!(first.get(), 1);
    assert_eq!(second.get(), 1);
    assert_eq!(third.get(), 0);
}

#[test]
fn all_successes_are_clean() {
    let calls = Rc::new(Cell::new(0));
    let actions = vec![counted(&calls, Ok(())), counted(&calls, Ok(()))];
    assert_eq!(run_actions(&actions), BuildOutcome::Clean);
    assert_eq!(calls.get(), 2);
}

#[test]
fn no_action_is_clean() {
    let actions: Vec<Action> = Vec::new();
    assert_eq!(run_actions(&actions), BuildOutcome::Clean);
}

#[test]
fn first_of_two_failures_decides() {
    let calls = Rc::new(Cell::new(0));
    let actions = vec![
        counted(&calls, Err(String::from("first"))),
        counted(&calls, Err(String::from("second"))),
    ];
    assert_eq!(run_actions(&actions), BuildOutcome::Failed(String::from("first")));
    assert_eq!(calls.get(), 1);
}

#[test]
fn every_build_starts_afresh() {
    let fails = Rc::new(Cell::new(true));
    let flag = Rc::clone(&fails);
    let actions: Vec<Action> = vec![Box::new(move || {
        if flag.get() {
            Err(String::from("broken"))
        } else {
            Ok(())
        }
    })];
    assert_eq!(run_actions(&actions), BuildOutcome::Failed(String::from("broken")));
    fails.set(false);
    assert_eq!(run_actions(&actions), BuildOutcome::Clean);
}

#[test]
fn outcome_of_reports_in_order() {
    assert_eq!(outcome_of(&[]), BuildOutcome::Clean);
    assert_eq!(outcome_of(&[Ok(()), Ok(())]), BuildOutcome::Clean);
    assert_eq!(
        outcome_of(&[Ok(()), Err(String::from("X")), Ok(())]),
        BuildOutcome::Failed(String::from("X"))
    );
    assert_eq!(
        outcome_of(&[Err(String::from("a")), Err(String::from("b"))]),
        BuildOutcome::Failed(String::from("a"))
    );
}

#[test]
fn outcome_gives_its_message() {
    assert_eq!(BuildOutcome::Clean.message(), None);
    assert_eq!(BuildOutcome::Failed(String::from("m")).message(), Some(String::from("m")));
    assert_eq!(BuildOutcome::Failed(String::new()).message(), Some(String::new()));
    let outcome = BuildOutcome::Failed(String::from("m"));
    assert_eq!(outcome.clone(), outcome);
}
