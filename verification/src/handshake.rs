//! Handshake negotiator: answers a push-socket upgrade request.
//!
//! The request names a key; the answer carries the accept token derived
//! from that key and a fixed magic string.

use crate::crypto::{base64_of, base64_standard, sha1_digest, sha1_of};
use crate::header::{header_of, read_header};
use crate::text::{
    after, before, find, is_text, lemma_first_index_bounds, occurs, same, to_chars, to_string,
    trim, trimmed, utf8_text,
};
use vstd::prelude::*;
use vstd::string::*;
use vstd::utf8::*;

verus! {

/// Why an upgrade request got no answer.
#[derive(Debug, Clone, Copy, PartialEq, Eq, Structural)]
pub enum HandshakeError {
    /// The incoming bytes hold no blank line, so no header.
    IncompleteHeader,
    /// The header is not UTF-8 text.
    NotText,
    /// No line of the header names the key field.
    MissingKey,
    /// The first line that names the key field has no colon after the name.
    MalformedKey,
}

/// The name of the header field that carries the client's key.
pub open spec fn key_field_name() -> Seq<char> {
    "Sec-WebSocket-Key"@
}

/// The fixed string that the protocol appends to the key before hashing.
pub open spec fn magic() -> Seq<char> {
    "258EAFA5-E914-47DA-95CA-C5AB0DC85B11"@
}

/// What ends a header line.
pub open spec fn line_break() -> Seq<char> {
    seq!['\r', '\n']
}

/// What parts a field's name from its value.
pub open spec fn colon() -> Seq<char> {
    seq![':']
}

/// The key that `text` names: lines are taken in order, and the first one
/// whose text before any colon is exactly the field name decides. Its key
/// is what stands between its first and second colon, without surrounding
/// white space.
pub open spec fn key_field(text: Seq<char>) -> Result<Seq<char>, HandshakeError>
    decreases text.len(),
{
    let line = before(text, line_break());
    if before(line, colon()) == key_field_name() {
        if occurs(line, colon()) {
            Ok(trimmed(before(after(line, colon()), colon())))
        } else {
            Err(HandshakeError::MalformedKey)
        }
    } else if occurs(text, line_break()) {
        proof {
            lemma_first_index_bounds(text, line_break());
        }
        key_field(after(text, line_break()))
    } else {
        Err(HandshakeError::MissingKey)
    }
}

/// The accept token for `key`: the base64 text of the SHA-1 digest of the
/// key followed by the magic string.
pub open spec fn accept_token(key: Seq<char>) -> Seq<char> {
    base64_standard(sha1_digest(encode_utf8(key + magic())))
}

/// The header block that answers an upgrade whose accept token is `token`:
/// status line, three header lines, blank line.
pub open spec fn upgrade_response(token: Seq<char>) -> Seq<char> {
    "HTTP/1.1 101 Switching Protocols\r\nUpgrade: websocket\r\nConnection: Upgrade\r\nSec-WebSocket-Accept: "@
        + token + "\r\n\r\n"@
}

/// The answer owed to the upgrade request `header`, or why there is none.
pub open spec fn handshake_reply(header: Seq<u8>) -> Result<Seq<char>, HandshakeError> {
    if !valid_utf8(header) {
        Err(HandshakeError::NotText)
    } else {
        match key_field(decode_utf8(header)) {
            Ok(key) => Ok(upgrade_response(accept_token(key))),
            Err(e) => Err(e),
        }
    }
}

/// Two requests that name the same key get the same answer: the answer is
/// a function of the key and the magic string, and of nothing else in the
/// request.
pub proof fn same_key_same_reply(a: Seq<u8>, b: Seq<u8>)
    requires
        valid_utf8(a),
        valid_utf8(b),
        key_field(decode_utf8(a)) == key_field(decode_utf8(b)),
    ensures
        handshake_reply(a) == handshake_reply(b),
        key_field(decode_utf8(a)) matches Ok(key) ==> handshake_reply(a) == Ok::<
            Seq<char>,
            HandshakeError,
        >(upgrade_response(accept_token(key))),
{
}

/// Finds the key that the header `text` names.
pub fn websocket_key(text: &[char]) -> (key: Result<Vec<char>, HandshakeError>)
    ensures
        match key {
            Ok(k) => key_field(text@) == Ok::<Seq<char>, HandshakeError>(k@),
            Err(e) => key_field(text@) == Err::<Seq<char>, HandshakeError>(e),
        },
{
    let name = to_chars("Sec-WebSocket-Key");
    let line_end: Vec<char> = vec!['\r', '\n'];
    let sep: Vec<char> = vec![':'];
    let mut rest: &[char] = text;
    loop
        invariant
            name@ == key_field_name(),
            line_end@ == line_break(),
            sep@ == colon(),
            key_field(text@) == key_field(rest@),
        decreases rest@.len(),
    {
        let end = find(rest, line_end.as_slice());
        let line = &rest[0..end];
        assert(line@ == before(rest@, line_break()));
        let stop = find(line, sep.as_slice());
        let field = &line[0..stop];
        assert(field@ == before(line@, colon()));
        if same(field, name.as_slice()) {
            if stop < line.len() {
                let value = &line[stop + 1..line.len()];
                assert(value@ == after(line@, colon()));
                let value_end = find(value, sep.as_slice());
                let key = trim(&value[0..value_end]);
                return Ok(vstd::slice::slice_to_vec(key));
            } else {
                return Err(HandshakeError::MalformedKey);
            }
        }
        if end < rest.len() {
            let next = &rest[end + 2..rest.len()];
            assert(next@ == after(rest@, line_break()));
            rest = next;
        } else {
            return Err(HandshakeError::MissingKey);
        }
    }
}

/// Computes the accept token for `key`. A token is 28 characters long, all
/// of them ASCII.
pub fn accept_token_for(key: &[char]) -> (token: String)
    ensures
        token@ == accept_token(key@),
        token@.len() == 28,
        is_ascii_chars(token@),
{
    let mut joined = to_string(key);
    joined.append("258EAFA5-E914-47DA-95CA-C5AB0DC85B11");
    let digest = sha1_of(joined.as_str().as_bytes());
    base64_of(digest.as_slice())
}

/// The answer to an upgrade is 101 characters longer than the token it
/// carries, and as many bytes when the token is ASCII.
pub proof fn upgrade_response_length(token: Seq<char>)
    ensures
        upgrade_response(token).len() == token.len() + 101,
        is_ascii_chars(token) ==> encode_utf8(upgrade_response(token)).len() == token.len() + 101,
{
    let head =
        "HTTP/1.1 101 Switching Protocols\r\nUpgrade: websocket\r\nConnection: Upgrade\r\nSec-WebSocket-Accept: ";
    let end = "\r\n\r\n";
    reveal_strlit(
        "HTTP/1.1 101 Switching Protocols\r\nUpgrade: websocket\r\nConnection: Upgrade\r\nSec-WebSocket-Accept: ",
    );
    reveal_strlit("\r\n\r\n");
    if is_ascii_chars(token) {
        let all = upgrade_response(token);
        assert(is_ascii_chars(head@));
        assert(is_ascii_chars(end@));
        assert forall|i: int| 0 <= i < all.len() implies '\0' <= #[trigger] all[i] <= '\u{7f}' by {
            if i < head@.len() {
                assert(all[i] == head@[i]);
            } else if i < head@.len() + token.len() {
                assert(all[i] == token[i - head@.len()]);
            } else {
                assert(all[i] == end@[i - head@.len() - token.len()]);
            }
        }
        is_ascii_chars_encode_utf8(all);
    }
}

/// Writes the header block that answers an upgrade with `token`.
pub fn upgrade_response_with(token: &str) -> (response: String)
    ensures
        response@ == upgrade_response(token@),
        response@.len() == token@.len() + 101,
        is_ascii_chars(token@) ==> encode_utf8(response@).len() == token@.len() + 101,
{
    let mut response = String::from_str(
        "HTTP/1.1 101 Switching Protocols\r\nUpgrade: websocket\r\nConnection: Upgrade\r\nSec-WebSocket-Accept: ",
    );
    response.append(token);
    response.append("\r\n\r\n");
    proof {
        upgrade_response_length(token@);
    }
    response
}

/// Answers the upgrade request whose header is the text encoded in `bytes`.
/// An answer is 129 characters long, and as many bytes.
pub fn parse_websocket_handshake(bytes: &[u8]) -> (reply: Result<String, HandshakeError>)
    requires
        valid_utf8(bytes@),
    ensures
        match reply {
            Ok(response) => handshake_reply(bytes@) == Ok::<Seq<char>, HandshakeError>(response@)
                && response@.len() == 129 && encode_utf8(response@).len() == 129,
            Err(e) => handshake_reply(bytes@) == Err::<Seq<char>, HandshakeError>(e),
        },
{
    let text = match utf8_text(bytes) {
        Some(text) => to_chars(text),
        None => vstd::pervasive::unreached(),
    };
    match websocket_key(text.as_slice()) {
        Ok(key) => {
            let token = accept_token_for(key.as_slice());
            Ok(upgrade_response_with(token.as_str()))
        },
        Err(e) => Err(e),
    }
}

/// What the server writes back when a client's first bytes are `incoming`.
pub open spec fn handshake_exchange(incoming: Seq<u8>) -> Result<Seq<u8>, HandshakeError> {
    match header_of(incoming) {
        None => Err(HandshakeError::IncompleteHeader),
        Some(header) => match handshake_reply(header) {
            Ok(response) => Ok(encode_utf8(response)),
            Err(e) => Err(e),
        },
    }
}

/// Performs the server's side of the upgrade: reads the request header off
/// `incoming`, makes sure that it is text, and writes the answer to
/// `stream`. On an error nothing is written.
pub fn handle_websocket_handshake(incoming: &[u8], stream: &mut Vec<u8>) -> (done: Result<
    (),
    HandshakeError,
>)
    ensures
        match done {
            Ok(()) => handshake_exchange(incoming@) matches Ok(written)
                && final(stream)@ == old(stream)@ + written && written.len() == 129,
            Err(e) => handshake_exchange(incoming@) == Err::<Seq<u8>, HandshakeError>(e)
                && final(stream)@ == old(stream)@,
        },
{
    let header = match read_header(incoming) {
        Some(header) => header,
        None => {
            return Err(HandshakeError::IncompleteHeader);
        },
    };
    if !is_text(header.as_slice()) {
        return Err(HandshakeError::NotText);
    }
    match parse_websocket_handshake(header.as_slice()) {
        Ok(response) => {
            stream.extend_from_slice(response.as_str().as_bytes());
            Ok(())
        },
        Err(e) => Err(e),
    }
}

} // verus!
