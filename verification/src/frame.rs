//! Frame codec: the one shape of push-socket frame this server ever sends.
//!
//! A frame is a single, final, unmasked text frame: a fixed first byte, one
//! length byte, then the payload. The length byte can describe at most 125
//! bytes, and the codec has no longer form: of a longer text it sends the
//! longest beginning that fits and ends between two characters.

use vstd::prelude::*;
use vstd::string::*;
use vstd::utf8::*;

verus! {

/// First byte of every frame: the "final fragment" bit together with the
/// text opcode.
pub const TEXT_FRAME_HEAD: u8 = 129;

/// Longest payload, in bytes, that the one-byte length field can describe.
pub const MAX_SHORT_PAYLOAD: usize = 125;

/// The last index at or before `n` at which a character of the UTF-8 text
/// `bytes` begins or the text ends.
pub open spec fn boundary_at_or_before(bytes: Seq<u8>, n: int) -> int
    decreases n,
{
    if n <= 0 {
        0
    } else if is_char_boundary(bytes, n) {
        n
    } else {
        boundary_at_or_before(bytes, n - 1)
    }
}

/// The payload that carries `text`: its UTF-8 bytes when they fit the
/// length field, and otherwise the longest beginning of them that fits and
/// ends between two characters.
pub open spec fn short_payload(text: Seq<char>) -> Seq<u8> {
    let bytes = encode_utf8(text);
    if bytes.len() <= MAX_SHORT_PAYLOAD {
        bytes
    } else {
        bytes.take(boundary_at_or_before(bytes, MAX_SHORT_PAYLOAD as int))
    }
}

/// The bytes of the frame that carries `payload`, which is at most 125
/// bytes long.
pub open spec fn text_frame(payload: Seq<u8>) -> Seq<u8> {
    seq![TEXT_FRAME_HEAD, payload.len() as u8] + payload
}

/// The payload of a reload message: nothing for a bare reload signal, the
/// text, cut to fit, otherwise.
pub open spec fn message_payload(message: Option<Seq<char>>) -> Seq<u8> {
    match message {
        Some(text) => short_payload(text),
        None => Seq::<u8>::empty(),
    }
}

/// `boundary_at_or_before` is a boundary within reach, and the last one.
pub proof fn lemma_boundary(bytes: Seq<u8>, n: int)
    requires
        valid_utf8(bytes),
        0 <= n <= bytes.len(),
    ensures
        0 <= boundary_at_or_before(bytes, n) <= n,
        is_char_boundary(bytes, boundary_at_or_before(bytes, n)),
        forall|m: int|
            boundary_at_or_before(bytes, n) < m <= n ==> !#[trigger] is_char_boundary(bytes, m),
    decreases n,
{
    is_char_boundary_start_end_of_seq(bytes);
    if n > 0 && !is_char_boundary(bytes, n) {
        lemma_boundary(bytes, n - 1);
    }
}

/// The payload for a text is never longer than the length byte can say, is
/// a beginning of the text, is itself well-formed text, and leaves out no
/// character that would still have fitted. A text that fits is sent whole.
pub proof fn payload_fits(text: Seq<char>)
    ensures
        short_payload(text).len() <= MAX_SHORT_PAYLOAD,
        short_payload(text).is_prefix_of(encode_utf8(text)),
        valid_utf8(short_payload(text)),
        encode_utf8(text).len() <= MAX_SHORT_PAYLOAD ==> short_payload(text) == encode_utf8(text),
        forall|m: int|
            short_payload(text).len() < m <= MAX_SHORT_PAYLOAD && m <= encode_utf8(text).len()
                ==> !#[trigger] is_char_boundary(encode_utf8(text), m),
        text_frame(short_payload(text)).len() == short_payload(text).len() + 2,
        text_frame(short_payload(text))[0] == TEXT_FRAME_HEAD,
        text_frame(short_payload(text))[1] == short_payload(text).len(),
        text_frame(short_payload(text)).skip(2) == short_payload(text),
{
    let bytes = encode_utf8(text);
    encode_utf8_valid_utf8(text);
    if bytes.len() > MAX_SHORT_PAYLOAD {
        lemma_boundary(bytes, MAX_SHORT_PAYLOAD as int);
        let cut = boundary_at_or_before(bytes, MAX_SHORT_PAYLOAD as int);
        valid_utf8_split(bytes, cut);
        assert(bytes.take(cut) =~= bytes.subrange(0, cut));
    } else {
        assert(bytes.subrange(0, bytes.len() as int) =~= bytes);
    }
    assert(text_frame(short_payload(text)).skip(2) =~= short_payload(text));
}

/// Appends to `frame` the frame that carries `text`: the two header bytes
/// and then the payload, which is the text cut to fit.
pub fn encode_text_frame(frame: &mut Vec<u8>, text: &str)
    ensures
        final(frame)@ == old(frame)@ + text_frame(short_payload(text@)),
{
    let bytes = text.as_bytes();
    let mut cut: usize = bytes.len();
    proof {
        encode_utf8_valid_utf8(text@);
        is_char_boundary_start_end_of_seq(bytes@);
    }
    if cut > MAX_SHORT_PAYLOAD {
        cut = MAX_SHORT_PAYLOAD;
        while !text.is_char_boundary(cut)
            invariant
                cut <= MAX_SHORT_PAYLOAD < bytes@.len(),
                bytes@ == encode_utf8(text@),
                is_char_boundary(bytes@, 0),
                boundary_at_or_before(bytes@, MAX_SHORT_PAYLOAD as int) == boundary_at_or_before(
                    bytes@,
                    cut as int,
                ),
            decreases cut,
        {
            cut -= 1;
        }
    }
    let payload = vstd::slice::slice_subrange(bytes, 0, cut);
    assert(payload@ =~= short_payload(text@));
    frame.push(TEXT_FRAME_HEAD);
    frame.push(cut as u8);
    frame.extend_from_slice(payload);
    assert(final(frame)@ =~= old(frame)@ + text_frame(short_payload(text@)));
}

/// Sends one reload message down `stream`: a frame with an empty payload
/// when there is no text, a frame carrying the text, cut to fit, otherwise.
pub fn send_websocket_message(stream: &mut Vec<u8>, message: Option<String>)
    ensures
        final(stream)@ == old(stream)@ + text_frame(
            message_payload(
                match message {
                    Some(text) => Some(text@),
                    None => None,
                },
            ),
        ),
{
    match message {
        Some(text) => encode_text_frame(stream, text.as_str()),
        None => {
            stream.push(TEXT_FRAME_HEAD);
            stream.push(0);
            assert(final(stream)@ =~= old(stream)@ + text_frame(Seq::<u8>::empty()));
        },
    }
}

} // verus!
