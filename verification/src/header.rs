//! The header-reading primitive: a request or handshake header is the bytes
//! up to and including the first blank line.

use vstd::prelude::*;

verus! {

/// The four bytes that end a header: carriage return, line feed, twice.
pub open spec fn terminator() -> Seq<u8> {
    seq![13u8, 10u8, 13u8, 10u8]
}

/// Whether `buffer` ends with the blank line that closes a header.
pub open spec fn is_complete(buffer: Seq<u8>) -> bool {
    terminator().is_suffix_of(buffer)
}

/// Whether `header` is the header at the front of `input`: the shortest
/// prefix of `input` that ends with the blank line.
pub open spec fn is_header_of(header: Seq<u8>, input: Seq<u8>) -> bool {
    &&& header.is_prefix_of(input)
    &&& is_complete(header)
    &&& forall|n: int| 0 <= n < header.len() ==> !is_complete(#[trigger] input.take(n))
}

/// Whether some prefix of `input` is a complete header.
pub open spec fn has_header(input: Seq<u8>) -> bool {
    exists|n: int| 0 <= n <= input.len() && is_complete(#[trigger] input.take(n))
}

/// The header at the front of `input`, if it holds one.
pub open spec fn header_of(input: Seq<u8>) -> Option<Seq<u8>> {
    if has_header(input) {
        Some(choose|header: Seq<u8>| is_header_of(header, input))
    } else {
        None
    }
}

/// Whether the bytes read so far end a header. A reader calls this after
/// each line it has appended to `buffer`, and stops at the first `true`.
pub fn header_complete(buffer: &[u8]) -> (done: bool)
    ensures
        done == is_complete(buffer@),
{
    let n = buffer.len();
    if n < 4 {
        return false;
    }
    let done = buffer[n - 4] == 13 && buffer[n - 3] == 10 && buffer[n - 2] == 13 && buffer[n - 1]
        == 10;
    proof {
        let tail = buffer@.subrange(n - 4, n as int);
        assert(tail[0] == buffer@[n - 4]);
        assert(tail[1] == buffer@[n - 3]);
        assert(tail[2] == buffer@[n - 2]);
        assert(tail[3] == buffer@[n - 1]);
        if done {
            assert(terminator() =~= tail);
        }
    }
    done
}

/// Reads the header off the front of `input`: the bytes up to and including
/// the first blank line, or nothing when `input` holds no blank line.
pub fn read_header(input: &[u8]) -> (header: Option<Vec<u8>>)
    ensures
        header matches Some(h) ==> is_header_of(h@, input@),
        header is Some <==> has_header(input@),
        match header {
            Some(h) => header_of(input@) == Some(h@),
            None => header_of(input@) is None,
        },
{
    let mut n: usize = 0;
    while n < input.len()
        invariant
            n <= input.len(),
            forall|m: int| 0 <= m <= n ==> !is_complete(#[trigger] input@.take(m)),
        decreases input.len() - n,
    {
        n += 1;
        let prefix = vstd::slice::slice_subrange(input, 0, n);
        assert(prefix@ =~= input@.take(n as int));
        if header_complete(prefix) {
            let header = vstd::slice::slice_to_vec(prefix);
            proof {
                let chosen = choose|h: Seq<u8>| is_header_of(h, input@);
                header_is_unique(header@, chosen, input@);
            }
            return Some(header);
        }
    }
    None
}

/// A complete buffer ends with a line feed, so a reader that takes its
/// input line by line and looks after each line misses no header.
pub proof fn complete_buffer_ends_a_line(buffer: Seq<u8>)
    requires
        is_complete(buffer),
    ensures
        buffer.len() >= 4,
        buffer.last() == 10u8,
{
    let tail = buffer.subrange(buffer.len() - 4, buffer.len() as int);
    assert(tail[3] == terminator()[3]);
}

/// A header never has a shorter complete prefix, so reading the header off
/// a header gives it back whole.
pub proof fn header_is_its_own_header(header: Seq<u8>, input: Seq<u8>)
    requires
        is_header_of(header, input),
    ensures
        is_header_of(header, header),
        has_header(header),
{
    assert forall|n: int| 0 <= n < header.len() implies !is_complete(#[trigger] header.take(n)) by {
        assert(header.take(n) =~= input.take(n));
    }
    assert(header.take(header.len() as int) =~= header);
}

/// At most one sequence is the header of a given input.
pub proof fn header_is_unique(a: Seq<u8>, b: Seq<u8>, input: Seq<u8>)
    requires
        is_header_of(a, input),
        is_header_of(b, input),
    ensures
        a == b,
{
    assert(input.take(a.len() as int) =~= a);
    assert(input.take(b.len() as int) =~= b);
    if a.len() < b.len() {
        assert(!is_complete(input.take(a.len() as int)));
    } else if b.len() < a.len() {
        assert(!is_complete(input.take(b.len() as int)));
    }
}

} // verus!
