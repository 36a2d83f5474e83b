//! Push-socket session: what one connected client is sent, and when the
//! session ends.
//!
//! After the upgrade a session waits to be released by the broadcast state,
//! sends one frame for the outcome it is handed, and waits again. It ends
//! when a write fails, which is how a client that went away is noticed.

use crate::frame::{message_payload, send_websocket_message, text_frame};
use crate::pipeline::BuildOutcome;
use crate::wake::{handed, published, BroadcastState, Shared, Waiter};
use vstd::prelude::*;
use vstd::utf8::*;

verus! {

/// The port on which pages open their push socket. It is fixed, and is not
/// the port that serves the files.
pub const RELOAD_PORT: u16 = 8129;

/// What a session does after it has tried to write a frame.
#[derive(Debug, Clone, Copy, PartialEq, Eq, Structural)]
pub enum SessionStep {
    /// Wait for the next wake.
    Wait,
    /// End the session and its thread.
    End,
}

/// The frame that tells a client of `outcome`: an empty payload asks the
/// page to reload, a failure text is shown in its place.
pub open spec fn reload_frame(outcome: Option<Seq<char>>) -> Seq<u8> {
    text_frame(message_payload(outcome))
}

/// The frame that a session which began to wait at wake count `since` owes
/// its client in `state`: none while no build has been published since,
/// the frame for the current outcome afterwards.
pub open spec fn frame_owed(state: Shared, since: nat) -> Option<Seq<u8>> {
    match handed(state, since) {
        Some(outcome) => Some(reload_frame(outcome)),
        None => None,
    }
}

/// Sends the client the frame for `outcome`.
pub fn notify_client(stream: &mut Vec<u8>, outcome: &BuildOutcome)
    ensures
        final(stream)@ == old(stream)@ + reload_frame(outcome@),
{
    send_websocket_message(stream, outcome.message());
}

/// Looks, for a session that has been woken, whether a build has been
/// published since it began to wait, and if so writes the one frame that
/// tells of the current outcome. It tells whether it wrote.
pub fn answer_wake(state: &BroadcastState, waiter: &Waiter, stream: &mut Vec<u8>) -> (wrote: bool)
    ensures
        match frame_owed(state@, waiter@) {
            Some(frame) => wrote && final(stream)@ == old(stream)@ + frame,
            None => !wrote && final(stream)@ == old(stream)@,
        },
{
    match state.released(waiter) {
        Some(outcome) => {
            notify_client(stream, &outcome);
            true
        },
        None => false,
    }
}

/// Decides how a session goes on after a write: it waits again when the
/// frame went out, and ends when it did not.
pub fn after_write(written: bool) -> (step: SessionStep)
    ensures
        written ==> step == SessionStep::Wait,
        !written ==> step == SessionStep::End,
{
    if written {
        SessionStep::Wait
    } else {
        SessionStep::End
    }
}

/// A session that waits while a build is published owes its client the
/// frame for that build's outcome, and so does every other session that
/// waits at that moment: none owes the frame of an older build.
pub proof fn waiting_sessions_owe_the_same_frame(
    state: Shared,
    outcome: Option<Seq<char>>,
    first: nat,
    second: nat,
)
    requires
        first <= state.wakes,
        second <= state.wakes,
    ensures
        frame_owed(published(state, outcome), first) == Some(reload_frame(outcome)),
        frame_owed(published(state, outcome), second) == Some(reload_frame(outcome)),
{
}

/// A session that begins to wait after a build was published owes its
/// client nothing until the next build is published, and then the frame for
/// that one.
pub proof fn late_session_owes_nothing(
    state: Shared,
    earlier: Option<Seq<char>>,
    next: Option<Seq<char>>,
)
    ensures
        frame_owed(published(state, earlier), published(state, earlier).wakes) is None,
        frame_owed(published(published(state, earlier), next), published(state, earlier).wakes)
            == Some(reload_frame(next)),
{
}

/// A clean build is told in two bytes: the frame head and a length of zero.
pub proof fn clean_frame_is_two_bytes()
    ensures
        reload_frame(None) =~= seq![129u8, 0u8],
{
}

/// A failure text in ASCII of at most 125 characters is told in a frame of
/// two bytes more than the text is long: the frame head, the length of the
/// text, and its characters, one byte each.
pub proof fn ascii_failure_frame(text: Seq<char>)
    requires
        is_ascii_chars(text),
        text.len() <= 125,
    ensures
        reload_frame(Some(text)).len() == text.len() + 2,
        reload_frame(Some(text))[0] == 129u8,
        reload_frame(Some(text))[1] == text.len(),
        forall|i: int| 0 <= i < text.len() ==> reload_frame(Some(text))[i + 2] == text[i] as u8,
{
    is_ascii_chars_encode_utf8(text);
    let payload = encode_utf8(text);
    assert(payload.len() == text.len());
    assert forall|i: int| 0 <= i < text.len() implies reload_frame(Some(text))[i + 2]
        == text[i] as u8 by {
        assert(reload_frame(Some(text))[i + 2] == payload[i]);
    }
}

} // verus!
