//! Build pipeline: runs the configured actions in order and settles the
//! outcome of the build.

use vstd::prelude::*;
use vstd::string::*;

verus! {

/// The result of the most recent build.
#[derive(Debug, PartialEq, Eq)]
pub enum BuildOutcome {
    /// Every action succeeded, or there was none to run.
    Clean,
    /// An action failed; this is what it said.
    Failed(String),
}

impl View for BuildOutcome {
    type V = Option<Seq<char>>;

    /// The failure text, if the build failed.
    open spec fn view(&self) -> Option<Seq<char>> {
        match self {
            BuildOutcome::Clean => None,
            BuildOutcome::Failed(message) => Some(message@),
        }
    }
}

impl Clone for BuildOutcome {
    /// A copy of this outcome.
    fn clone(&self) -> (copy: BuildOutcome)
        ensures
            copy@ == self@,
    {
        match self {
            BuildOutcome::Clean => BuildOutcome::Clean,
            BuildOutcome::Failed(message) => BuildOutcome::Failed(message.clone()),
        }
    }
}

impl BuildOutcome {
    /// The text to show to the user: the failure text of a failed build,
    /// nothing for a clean one.
    pub fn message(&self) -> (text: Option<String>)
        ensures
            match text {
                Some(t) => self@ == Some(t@),
                None => self@ is None,
            },
    {
        match self {
            BuildOutcome::Clean => None,
            BuildOutcome::Failed(message) => Some(message.clone()),
        }
    }
}

/// What the first failure among `results` said, if any of them is one.
pub open spec fn first_failure(results: Seq<Result<(), String>>) -> Option<Seq<char>>
    decreases results.len(),
{
    if results.len() == 0 {
        None
    } else {
        match results[0] {
            Err(message) => Some(message@),
            Ok(()) => first_failure(results.skip(1)),
        }
    }
}

/// Settles a build from what its actions reported, in the order they ran:
/// the first failure decides, and without one the build is clean.
pub fn outcome_of(results: &[Result<(), String>]) -> (outcome: BuildOutcome)
    ensures
        outcome@ == first_failure(results@),
{
    let mut i: usize = 0;
    assert(results@.skip(0) =~= results@);
    while i < results.len()
        invariant
            i <= results.len(),
            first_failure(results@) == first_failure(results@.skip(i as int)),
        decreases results.len() - i,
    {
        assert(results@.skip(i as int)[0] == results@[i as int]);
        assert(results@.skip(i as int).skip(1) =~= results@.skip(i + 1));
        match &results[i] {
            Err(message) => {
                return BuildOutcome::Failed(message.clone());
            },
            Ok(_) => {},
        }
        i += 1;
    }
    BuildOutcome::Clean
}

/// Runs one build: calls `actions` in order and stops at the first that
/// fails.
///
/// A clean outcome means that every action was called and reported
/// success. A failed one carries what some action reported, all actions
/// before it having reported success; no action after it was called.
pub fn run_actions<F: Fn() -> Result<(), String>>(actions: &[F]) -> (outcome: BuildOutcome)
    requires
        forall|i: int| 0 <= i < actions@.len() ==> call_requires(#[trigger] actions@[i], ()),
    ensures
        match outcome {
            BuildOutcome::Clean => forall|i: int|
                0 <= i < actions@.len() ==> call_ensures(#[trigger] actions@[i], (), Ok(())),
            BuildOutcome::Failed(message) => exists|k: int|
                0 <= k < actions@.len() && call_ensures(
                    #[trigger] actions@[k],
                    (),
                    Err(message),
                ) && forall|j: int| 0 <= j < k ==> call_ensures(#[trigger] actions@[j], (), Ok(())),
        },
{
    let mut i: usize = 0;
    while i < actions.len()
        invariant
            i <= actions.len(),
            forall|j: int| 0 <= j < actions@.len() ==> call_requires(#[trigger] actions@[j], ()),
            forall|j: int| 0 <= j < i ==> call_ensures(#[trigger] actions@[j], (), Ok(())),
        decreases actions.len() - i,
    {
        let action = &actions[i];
        let result = action();
        assert(call_ensures(actions@[i as int], (), result));
        match result {
            Err(message) => {
                return BuildOutcome::Failed(message);
            },
            Ok(done) => {
                assert(result == Ok::<(), String>(()));
            },
        }
        i += 1;
    }
    BuildOutcome::Clean
}

/// With no action configured every build is clean.
pub proof fn no_action_is_clean()
    ensures
        first_failure(Seq::<Result<(), String>>::empty()) is None,
{
}

/// A build is clean exactly when none of its actions reported a failure.
pub proof fn clean_means_no_failure(results: Seq<Result<(), String>>)
    ensures
        first_failure(results) is None <==> forall|i: int|
            0 <= i < results.len() ==> (#[trigger] results[i]) is Ok,
    decreases results.len(),
{
    if results.len() > 0 {
        let rest = results.skip(1);
        clean_means_no_failure(rest);
        if first_failure(results) is None {
            assert forall|i: int| 0 <= i < results.len() implies (#[trigger] results[i]) is Ok by {
                if i > 0 {
                    assert(rest[i - 1] == results[i]);
                }
            }
        } else if results[0] is Ok {
            let i = choose|i: int| 0 <= i < rest.len() && !((#[trigger] rest[i]) is Ok);
            assert(results[i + 1] == rest[i]);
        }
    }
}

/// A failed build carries the text of the earliest failure: the action at
/// `at` failed, and every action before it succeeded.
pub proof fn failure_is_the_first(results: Seq<Result<(), String>>, at: int)
    requires
        0 <= at < results.len(),
        results[at] is Err,
        forall|j: int| 0 <= j < at ==> (#[trigger] results[j]) is Ok,
    ensures
        first_failure(results) == Some(results[at]->Err_0@),
    decreases at,
{
    if at > 0 {
        let rest = results.skip(1);
        assert(results[0] is Ok);
        assert(rest[at - 1] == results[at]);
        assert forall|j: int| 0 <= j < at - 1 implies (#[trigger] rest[j]) is Ok by {
            assert(rest[j] == results[j + 1]);
        }
        failure_is_the_first(rest, at - 1);
    }
}

} // verus!
