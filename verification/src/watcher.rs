//! Change watcher: which filesystem events start a build, and how a burst
//! of them is folded into one.
//!
//! The watcher thread is a machine with two states. While waiting it blocks
//! for the next event; an event that qualifies starts one build, after
//! which the thread drains: it throws away whatever has queued up meanwhile,
//! and goes back to waiting once the queue is empty.

use vstd::prelude::*;

verus! {

/// A filesystem notification, by kind.
#[derive(Debug, Clone, Copy, PartialEq, Eq, Structural)]
pub enum WatchEvent {
    /// Something was created.
    Create,
    /// The content of a file changed.
    ModifyData,
    /// Only metadata changed: times, permissions, ownership.
    ModifyMetadata,
    /// Something was renamed.
    Rename,
    /// A modification of no stated kind.
    ModifyOther,
    /// Something was removed.
    Remove,
    /// Something was opened, read or closed.
    Access,
    /// Any other notification.
    Other,
}

/// What the watcher thread is doing.
#[derive(Debug, Clone, Copy, PartialEq, Eq, Structural)]
pub enum WatcherState {
    /// Blocked until the next notification arrives.
    Waiting,
    /// A build has just run; queued notifications are being discarded.
    Draining,
    /// The source of notifications is gone.
    Stopped,
}

/// What the thread got when it asked for the next notification.
#[derive(Debug, Clone, Copy, PartialEq, Eq, Structural)]
pub enum WatcherInput {
    /// A notification.
    Event(WatchEvent),
    /// The watch mechanism reported a failure of its own.
    Failure,
    /// Nothing is queued.
    Empty,
    /// No notification will ever come again.
    Closed,
}

/// What the thread has to do before it asks again.
#[derive(Debug, Clone, Copy, PartialEq, Eq, Structural)]
pub enum WatcherEffect {
    /// Nothing.
    Nothing,
    /// Run the build pipeline and wake the sessions.
    Rebuild,
    /// Report the failure of the watch mechanism, and go on.
    Report,
}

/// Whether `event` is a change of content: a creation or a modification of
/// data. Removals, renames and changes of metadata never are.
pub open spec fn qualifies(event: WatchEvent) -> bool {
    event is Create || event is ModifyData
}

/// The state that follows `state` on `input`.
pub open spec fn next_state(state: WatcherState, input: WatcherInput) -> WatcherState {
    match state {
        WatcherState::Waiting => match input {
            WatcherInput::Event(event) => if qualifies(event) {
                WatcherState::Draining
            } else {
                WatcherState::Waiting
            },
            WatcherInput::Failure => WatcherState::Waiting,
            WatcherInput::Empty => WatcherState::Waiting,
            WatcherInput::Closed => WatcherState::Stopped,
        },
        WatcherState::Draining => match input {
            WatcherInput::Event(_) => WatcherState::Draining,
            WatcherInput::Failure => WatcherState::Draining,
            WatcherInput::Empty => WatcherState::Waiting,
            WatcherInput::Closed => WatcherState::Waiting,
        },
        WatcherState::Stopped => WatcherState::Stopped,
    }
}

/// What `input` makes the thread do when it arrives in `state`.
pub open spec fn effect_of(state: WatcherState, input: WatcherInput) -> WatcherEffect {
    match state {
        WatcherState::Waiting => match input {
            WatcherInput::Event(event) => if qualifies(event) {
                WatcherEffect::Rebuild
            } else {
                WatcherEffect::Nothing
            },
            WatcherInput::Failure => WatcherEffect::Report,
            _ => WatcherEffect::Nothing,
        },
        _ => WatcherEffect::Nothing,
    }
}

/// The state reached from `state` after all of `inputs`, in order.
pub open spec fn state_after(state: WatcherState, inputs: Seq<WatcherInput>) -> WatcherState
    decreases inputs.len(),
{
    if inputs.len() == 0 {
        state
    } else {
        state_after(next_state(state, inputs[0]), inputs.skip(1))
    }
}

/// How many builds `inputs` start, taken in order from `state`.
pub open spec fn builds(state: WatcherState, inputs: Seq<WatcherInput>) -> nat
    decreases inputs.len(),
{
    if inputs.len() == 0 {
        0
    } else {
        let here: nat = if effect_of(state, inputs[0]) == WatcherEffect::Rebuild {
            1
        } else {
            0
        };
        here + builds(next_state(state, inputs[0]), inputs.skip(1))
    }
}

/// Whether `inputs` is a burst: notifications or failures only, with no
/// moment at which the queue was seen empty.
pub open spec fn is_burst(inputs: Seq<WatcherInput>) -> bool {
    forall|i: int| 0 <= i < inputs.len() ==> (#[trigger] inputs[i]) is Event || inputs[i] is Failure
}

/// Whether `event` is a change of content.
pub fn is_qualifying(event: WatchEvent) -> (yes: bool)
    ensures
        yes == qualifies(event),
{
    match event {
        WatchEvent::Create => true,
        WatchEvent::ModifyData => true,
        _ => false,
    }
}

/// One turn of the watcher thread: takes what the thread got when it asked
/// for a notification, and gives the state to go on in and what to do first.
///
/// In `Waiting` the thread asks by blocking, in `Draining` by polling; in
/// `Stopped` it asks no more.
pub fn step(state: WatcherState, input: WatcherInput) -> (turn: (WatcherState, WatcherEffect))
    ensures
        turn.0 == next_state(state, input),
        turn.1 == effect_of(state, input),
{
    match state {
        WatcherState::Waiting => match input {
            WatcherInput::Event(event) => if is_qualifying(event) {
                (WatcherState::Draining, WatcherEffect::Rebuild)
            } else {
                (WatcherState::Waiting, WatcherEffect::Nothing)
            },
            WatcherInput::Failure => (WatcherState::Waiting, WatcherEffect::Report),
            WatcherInput::Empty => (WatcherState::Waiting, WatcherEffect::Nothing),
            WatcherInput::Closed => (WatcherState::Stopped, WatcherEffect::Nothing),
        },
        WatcherState::Draining => match input {
            WatcherInput::Event(_) => (WatcherState::Draining, WatcherEffect::Nothing),
            WatcherInput::Failure => (WatcherState::Draining, WatcherEffect::Nothing),
            WatcherInput::Empty => (WatcherState::Waiting, WatcherEffect::Nothing),
            WatcherInput::Closed => (WatcherState::Waiting, WatcherEffect::Nothing),
        },
        WatcherState::Stopped => (WatcherState::Stopped, WatcherEffect::Nothing),
    }
}

/// While draining, a burst starts no build and leaves the thread draining.
pub proof fn draining_discards_a_burst(inputs: Seq<WatcherInput>)
    requires
        is_burst(inputs),
    ensures
        builds(WatcherState::Draining, inputs) == 0,
        state_after(WatcherState::Draining, inputs) == WatcherState::Draining,
    decreases inputs.len(),
{
    if inputs.len() > 0 {
        assert(inputs[0] is Event || inputs[0] is Failure);
        let rest = inputs.skip(1);
        assert forall|i: int| 0 <= i < rest.len() implies (#[trigger] rest[i]) is Event
            || rest[i] is Failure by {
            assert(rest[i] == inputs[i + 1]);
        }
        draining_discards_a_burst(rest);
    }
}

/// A burst that opens with a qualifying event, however long and whatever
/// follows in it, starts exactly one build once the queue is seen empty,
/// and the thread is then waiting again.
pub proof fn burst_starts_one_build(first: WatchEvent, more: Seq<WatcherInput>)
    requires
        qualifies(first),
        is_burst(more),
    ensures
        builds(
            WatcherState::Waiting,
            seq![WatcherInput::Event(first)] + more + seq![WatcherInput::Empty],
        ) == 1,
        state_after(
            WatcherState::Waiting,
            seq![WatcherInput::Event(first)] + more + seq![WatcherInput::Empty],
        ) == WatcherState::Waiting,
{
    let all = seq![WatcherInput::Event(first)] + more + seq![WatcherInput::Empty];
    let tail = more + seq![WatcherInput::Empty];
    assert(all.skip(1) =~= tail);
    assert(all[0] == WatcherInput::Event(first));
    lemma_split(WatcherState::Draining, more, seq![WatcherInput::Empty]);
    draining_discards_a_burst(more);
    let last = seq![WatcherInput::Empty];
    assert(last.skip(1) =~= Seq::<WatcherInput>::empty());
    assert(last[0] == WatcherInput::Empty);
    assert(builds(WatcherState::Waiting, last.skip(1)) == 0);
    assert(state_after(WatcherState::Waiting, last.skip(1)) == WatcherState::Waiting);
    assert(builds(WatcherState::Draining, last) == 0);
    assert(state_after(WatcherState::Draining, last) == WatcherState::Waiting);
}

/// Events that do not qualify start no build, however many arrive, and
/// leave the thread waiting.
pub proof fn unqualified_events_start_no_build(events: Seq<WatchEvent>)
    requires
        forall|i: int| 0 <= i < events.len() ==> !qualifies(#[trigger] events[i]),
    ensures
        builds(WatcherState::Waiting, events.map_values(|e: WatchEvent| WatcherInput::Event(e)))
            == 0,
        state_after(
            WatcherState::Waiting,
            events.map_values(|e: WatchEvent| WatcherInput::Event(e)),
        ) == WatcherState::Waiting,
    decreases events.len(),
{
    let inputs = events.map_values(|e: WatchEvent| WatcherInput::Event(e));
    if events.len() > 0 {
        let rest = events.skip(1);
        assert(inputs[0] == WatcherInput::Event(events[0]));
        assert(!qualifies(events[0]));
        assert(inputs.skip(1) =~= rest.map_values(|e: WatchEvent| WatcherInput::Event(e)));
        assert forall|i: int| 0 <= i < rest.len() implies !qualifies(#[trigger] rest[i]) by {
            assert(rest[i] == events[i + 1]);
        }
        unqualified_events_start_no_build(rest);
    }
}

/// Builds and states add up over a sequence of inputs cut in two.
pub proof fn lemma_split(state: WatcherState, a: Seq<WatcherInput>, b: Seq<WatcherInput>)
    ensures
        builds(state, a + b) == builds(state, a) + builds(state_after(state, a), b),
        state_after(state, a + b) == state_after(state_after(state, a), b),
    decreases a.len(),
{
    if a.len() == 0 {
        assert(a + b =~= b);
    } else {
        assert((a + b)[0] == a[0]);
        assert((a + b).skip(1) =~= a.skip(1) + b);
        lemma_split(next_state(state, a[0]), a.skip(1), b);
    }
}

} // verus!
