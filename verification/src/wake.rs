//! The state that the build pipeline shares with the sessions: the outcome
//! of the last build, and the count of wakes by which a waiting session
//! knows that a newer one has been published.
//!
//! The program keeps one value of this type behind a lock, with a condition
//! to sleep on. A session that starts to wait notes the count; it is
//! released once the count has moved on, and then reads the outcome under
//! the same lock. What is shared is the last known outcome, not a queue of
//! messages.

use crate::pipeline::{run_actions, BuildOutcome};
use vstd::prelude::*;

verus! {

/// What a broadcast state holds, as plain values.
pub struct Shared {
    /// The outcome of the most recent build: the failure text, if it failed.
    pub outcome: Option<Seq<char>>,
    /// How many builds have been published so far.
    pub wakes: nat,
}

/// The state before any build.
pub open spec fn initial() -> Shared {
    Shared { outcome: None, wakes: 0 }
}

/// The state after a build with outcome `outcome` has been published.
pub open spec fn published(state: Shared, outcome: Option<Seq<char>>) -> Shared {
    Shared { outcome, wakes: state.wakes + 1 }
}

/// The state after each of `outcomes` has been published in turn.
pub open spec fn published_all(state: Shared, outcomes: Seq<Option<Seq<char>>>) -> Shared
    decreases outcomes.len(),
{
    if outcomes.len() == 0 {
        state
    } else {
        published(published_all(state, outcomes.drop_last()), outcomes.last())
    }
}

/// What a session that began to wait at wake count `since` is handed in
/// `state`: nothing while no build has been published since, the current
/// outcome afterwards.
pub open spec fn handed(state: Shared, since: nat) -> Option<Option<Seq<char>>> {
    if state.wakes == since {
        None
    } else {
        Some(state.outcome)
    }
}

/// The shared record of the last build.
#[derive(Debug)]
pub struct BroadcastState {
    outcome: BuildOutcome,
    wakes: u64,
}

/// The mark of a session that has begun to wait.
#[derive(Debug, Clone, Copy, PartialEq, Eq, Structural)]
pub struct Waiter {
    since: u64,
}

impl View for Waiter {
    type V = nat;

    /// The wake count at which the session began to wait.
    closed spec fn view(&self) -> nat {
        self.since as nat
    }
}

impl View for BroadcastState {
    type V = Shared;

    closed spec fn view(&self) -> Shared {
        Shared { outcome: self.outcome@, wakes: self.wakes as nat }
    }
}

impl BroadcastState {
    /// The state of a server that has not built yet: clean, never woken.
    pub fn new() -> (state: BroadcastState)
        ensures
            state@ == initial(),
    {
        BroadcastState { outcome: BuildOutcome::Clean, wakes: 0 }
    }

    /// Whether one more build can be counted.
    pub fn can_publish(&self) -> (yes: bool)
        ensures
            yes == (self@.wakes < u64::MAX),
    {
        self.wakes < u64::MAX
    }

    /// Records the outcome of a build that has just ended. Every call is a
    /// wake, whether or not the outcome differs from the one before.
    pub fn publish(&mut self, outcome: BuildOutcome)
        requires
            old(self)@.wakes < u64::MAX,
        ensures
            final(self)@ == published(old(self)@, outcome@),
    {
        self.outcome = outcome;
        self.wakes = self.wakes + 1;
    }

    /// Runs one build and records its outcome: `actions` are called in
    /// order up to the first that fails, and whatever the outcome, and
    /// whatever the one before it was, the sessions are owed a wake.
    pub fn rebuild<F: Fn() -> Result<(), String>>(&mut self, actions: &[F])
        requires
            old(self)@.wakes < u64::MAX,
            forall|i: int| 0 <= i < actions@.len() ==> call_requires(#[trigger] actions@[i], ()),
        ensures
            final(self)@.wakes == old(self)@.wakes + 1,
            match final(self)@.outcome {
                None => forall|i: int|
                    0 <= i < actions@.len() ==> call_ensures(#[trigger] actions@[i], (), Ok(())),
                Some(text) => exists|k: int, message: String|
                    #![trigger call_ensures(actions@[k], (), Err(message))]
                    0 <= k < actions@.len() && message@ == text && call_ensures(
                        actions@[k],
                        (),
                        Err(message),
                    ) && forall|j: int|
                        0 <= j < k ==> call_ensures(#[trigger] actions@[j], (), Ok(())),
            },
    {
        let outcome = run_actions(actions);
        self.publish(outcome);
    }

    /// Marks the moment at which a session begins to wait.
    pub fn begin_wait(&self) -> (waiter: Waiter)
        ensures
            waiter@ == self@.wakes,
    {
        Waiter { since: self.wakes }
    }

    /// Tells a waiting session whether it is released, and hands it the
    /// current outcome if it is.
    pub fn released(&self, waiter: &Waiter) -> (outcome: Option<BuildOutcome>)
        ensures
            match outcome {
                Some(o) => handed(self@, waiter@) == Some(o@),
                None => handed(self@, waiter@) is None,
            },
    {
        if self.wakes == waiter.since {
            None
        } else {
            Some(self.outcome.clone())
        }
    }

    /// The outcome of the most recent build.
    pub fn current(&self) -> (outcome: BuildOutcome)
        ensures
            outcome@ == self@.outcome,
    {
        self.outcome.clone()
    }
}

/// Publishing never lowers the wake count, and raises it by one for each
/// build.
pub proof fn wakes_count_builds(state: Shared, outcomes: Seq<Option<Seq<char>>>)
    ensures
        published_all(state, outcomes).wakes == state.wakes + outcomes.len(),
        outcomes.len() > 0 ==> published_all(state, outcomes).outcome == outcomes.last(),
    decreases outcomes.len(),
{
    if outcomes.len() > 0 {
        wakes_count_builds(state, outcomes.drop_last());
    }
}

/// A session that is waiting when builds are published is released, and is
/// handed the outcome of the latest of them, never an older one.
pub proof fn waiting_session_is_released(
    state: Shared,
    outcomes: Seq<Option<Seq<char>>>,
)
    requires
        outcomes.len() > 0,
    ensures
        handed(published_all(state, outcomes), state.wakes) == Some(outcomes.last()),
{
    wakes_count_builds(state, outcomes);
}

/// A session that begins to wait after a build was published, and before
/// the next, is not released by it: it is handed nothing until the next
/// build, and then that build's outcome.
pub proof fn late_session_waits_for_next(
    state: Shared,
    earlier: Option<Seq<char>>,
    next: Option<Seq<char>>,
)
    ensures
        handed(published(state, earlier), published(state, earlier).wakes) is None,
        handed(published(published(state, earlier), next), published(state, earlier).wakes)
            == Some(next),
{
}

/// Sessions that wait at the moment of a wake are all handed the same
/// outcome, whenever each of them began to wait.
pub proof fn sessions_agree(state: Shared, first: nat, second: nat)
    requires
        first < state.wakes,
        second < state.wakes,
    ensures
        handed(state, first) == handed(state, second),
        handed(state, first) == Some(state.outcome),
{
}

} // verus!
