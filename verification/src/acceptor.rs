//! Connection acceptor: decides from the first two bytes of a connection
//! whether it speaks the plain protocol or the encrypted one, and what to do
//! with it next.
//!
//! A plain request starts with a verb made of letters; an encrypted stream
//! does not. The two bytes are peeked, never consumed. A client that sends
//! its first bytes one at a time can be taken for an encrypted one: that is
//! a known limit of the rule.

use vstd::prelude::*;

verus! {

/// How a connection carries its request.
#[derive(Debug, Clone, Copy, PartialEq, Eq, Structural)]
pub enum Transport {
    /// The request can be read from the stream as it is.
    Plain,
    /// The stream must first go through the encryption handshake.
    Encrypted,
}

/// What the acceptor does with a connection next.
#[derive(Debug, Clone, Copy, PartialEq, Eq, Structural)]
pub enum AcceptStep {
    /// Close the connection without a word.
    Drop,
    /// Perform the encryption handshake with the server's identity.
    Handshake,
    /// Hand the stream, carried as told, to the file responder.
    Serve(Transport),
}

/// Whether `byte` is an ASCII letter.
pub open spec fn is_ascii_letter(byte: u8) -> bool {
    (0x41 <= byte <= 0x5A) || (0x61 <= byte <= 0x7A)
}

/// The transport that two leading bytes stand for: plain when both are
/// ASCII letters, encrypted in every other case.
pub open spec fn transport_of(first: u8, second: u8) -> Transport {
    if is_ascii_letter(first) && is_ascii_letter(second) {
        Transport::Plain
    } else {
        Transport::Encrypted
    }
}

/// The step that follows the peek, which gave the bytes `peeked`: none at
/// all when it failed, fewer than two when the connection was closed before
/// two had arrived.
pub open spec fn step_after_peek(peeked: Seq<u8>) -> AcceptStep {
    if peeked.len() < 2 {
        AcceptStep::Drop
    } else {
        match transport_of(peeked[0], peeked[1]) {
            Transport::Plain => AcceptStep::Serve(Transport::Plain),
            Transport::Encrypted => AcceptStep::Handshake,
        }
    }
}

/// Whether `byte` is an ASCII letter.
pub fn ascii_letter(byte: u8) -> (yes: bool)
    ensures
        yes == is_ascii_letter(byte),
{
    (0x41 <= byte && byte <= 0x5A) || (0x61 <= byte && byte <= 0x7A)
}

/// Classifies a connection by its two leading bytes.
pub fn classify(first: u8, second: u8) -> (transport: Transport)
    ensures
        is_ascii_letter(first) && is_ascii_letter(second) ==> transport == Transport::Plain,
        !(is_ascii_letter(first) && is_ascii_letter(second)) ==> transport == Transport::Encrypted,
        transport == transport_of(first, second),
{
    if ascii_letter(first) && ascii_letter(second) {
        Transport::Plain
    } else {
        Transport::Encrypted
    }
}

/// Decides what follows the peek of the leading bytes. `peeked` holds the
/// bytes that the peek gave, none when it failed. A peek that gave fewer
/// than two bytes drops the connection, a plain stream is served at once,
/// any other goes through the handshake first.
pub fn after_peek(peeked: &[u8]) -> (step: AcceptStep)
    ensures
        step == step_after_peek(peeked@),
        peeked@.len() < 2 <==> step == AcceptStep::Drop,
{
    if peeked.len() < 2 {
        AcceptStep::Drop
    } else {
        match classify(peeked[0], peeked[1]) {
            Transport::Plain => AcceptStep::Serve(Transport::Plain),
            Transport::Encrypted => AcceptStep::Handshake,
        }
    }
}

/// Decides what follows the encryption handshake: the unwrapped stream is
/// served, a failed handshake drops the connection and is not tried again.
pub fn after_handshake(succeeded: bool) -> (step: AcceptStep)
    ensures
        succeeded ==> step == AcceptStep::Serve(Transport::Encrypted),
        !succeeded ==> step == AcceptStep::Drop,
{
    if succeeded {
        AcceptStep::Serve(Transport::Encrypted)
    } else {
        AcceptStep::Drop
    }
}

/// No pair of bytes is left unclassified, and none is both: a pair is plain
/// exactly when both bytes are ASCII letters, encrypted exactly when not.
pub proof fn classification_is_total(first: u8, second: u8)
    ensures
        transport_of(first, second) == Transport::Plain <==> is_ascii_letter(first)
            && is_ascii_letter(second),
        transport_of(first, second) == Transport::Encrypted <==> !(is_ascii_letter(first)
            && is_ascii_letter(second)),
{
}

} // verus!
