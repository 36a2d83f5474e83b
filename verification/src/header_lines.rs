//! Extra header lines: what a line given by the user must look like before
//! it is sent with every response.

use crate::text::{find, occurs, to_chars};
use vstd::prelude::*;
use vstd::string::*;
use vstd::utf8::*;

verus! {

/// What is wrong with an extra header line.
#[derive(Debug, Clone, Copy, PartialEq, Eq, Structural)]
pub enum HeaderError {
    /// The line has no colon between a name and a value.
    MissingColon,
    /// The line holds a carriage return or a line feed.
    LineBreak,
    /// The line holds a character outside ASCII.
    NotAscii,
}

/// The first thing wrong with the header line `line`, if any: a missing
/// colon is looked for first, a line break second, a character outside
/// ASCII last.
pub open spec fn line_fault(line: Seq<char>) -> Option<HeaderError> {
    if !occurs(line, seq![':']) {
        Some(HeaderError::MissingColon)
    } else if occurs(line, seq!['\r']) || occurs(line, seq!['\n']) {
        Some(HeaderError::LineBreak)
    } else if !is_ascii_chars(line) {
        Some(HeaderError::NotAscii)
    } else {
        None
    }
}

/// The fault of the first of `lines` that has one.
pub open spec fn first_fault(lines: Seq<String>) -> Option<HeaderError>
    decreases lines.len(),
{
    if lines.len() == 0 {
        None
    } else {
        match line_fault(lines[0]@) {
            Some(fault) => Some(fault),
            None => first_fault(lines.skip(1)),
        }
    }
}

/// The text that `lines` add to the head of a response: each line with a
/// line break in front of it.
pub open spec fn header_block(lines: Seq<String>) -> Seq<char>
    decreases lines.len(),
{
    if lines.len() == 0 {
        Seq::<char>::empty()
    } else {
        header_block(lines.drop_last()) + "\r\n"@ + lines.last()@
    }
}

fn holds(line: &[char], c: char) -> (yes: bool)
    ensures
        yes == occurs(line@, seq![c]),
{
    let pat: Vec<char> = vec![c];
    assert(pat@ =~= seq![c]);
    find(line, pat.as_slice()) < line.len()
}

/// Checks one extra header line.
pub fn check_header(line: &str) -> (checked: Result<(), HeaderError>)
    ensures
        match checked {
            Ok(()) => line_fault(line@) is None,
            Err(fault) => line_fault(line@) == Some(fault),
        },
{
    let chars = to_chars(line);
    if !holds(chars.as_slice(), ':') {
        Err(HeaderError::MissingColon)
    } else if holds(chars.as_slice(), '\r') || holds(chars.as_slice(), '\n') {
        Err(HeaderError::LineBreak)
    } else if !line.is_ascii() {
        Err(HeaderError::NotAscii)
    } else {
        Ok(())
    }
}

/// Checks the extra header lines in order and joins them into the text
/// that every response carries. The first line with a fault decides the
/// error.
pub fn extra_headers(lines: &[String]) -> (block: Result<String, HeaderError>)
    ensures
        match block {
            Ok(text) => first_fault(lines@) is None && text@ == header_block(lines@),
            Err(fault) => first_fault(lines@) == Some(fault),
        },
{
    let mut text = String::new();
    let mut i: usize = 0;
    assert(lines@.skip(0) =~= lines@);
    assert(lines@.take(0) =~= Seq::<String>::empty());
    while i < lines.len()
        invariant
            i <= lines.len(),
            first_fault(lines@) == first_fault(lines@.skip(i as int)),
            text@ == header_block(lines@.take(i as int)),
        decreases lines.len() - i,
    {
        assert(lines@.skip(i as int)[0] == lines@[i as int]);
        assert(lines@.skip(i as int).skip(1) =~= lines@.skip(i + 1));
        match check_header(lines[i].as_str()) {
            Ok(_) => {},
            Err(fault) => {
                return Err(fault);
            },
        }
        text.append("\r\n");
        text.append(lines[i].as_str());
        assert(lines@.take(i + 1).drop_last() =~= lines@.take(i as int));
        assert(lines@.take(i + 1).last() == lines@[i as int]);
        i += 1;
    }
    assert(lines@.take(i as int) =~= lines@);
    Ok(text)
}

} // verus!
