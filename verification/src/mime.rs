//! Media types by file extension.

use crate::text::{same, to_chars};
use vstd::prelude::*;
use vstd::string::*;

verus! {

/// The media type of a file whose kind is not known: plain bytes.
pub open spec fn generic_type() -> Seq<char> {
    "application/octet-stream"@
}

/// The media type for the extension `e`, if the table knows it. Extensions
/// are matched as written, in lower case.
pub open spec fn known_type(e: Seq<char>) -> Option<Seq<char>> {
    if e == "html"@ || e == "htm"@ {
        Some("text/html"@)
    } else if e == "css"@ {
        Some("text/css"@)
    } else if e == "js"@ || e == "mjs"@ {
        Some("text/javascript"@)
    } else if e == "json"@ {
        Some("application/json"@)
    } else if e == "wasm"@ {
        Some("application/wasm"@)
    } else if e == "txt"@ {
        Some("text/plain"@)
    } else if e == "xml"@ {
        Some("application/xml"@)
    } else if e == "csv"@ {
        Some("text/csv"@)
    } else if e == "pdf"@ {
        Some("application/pdf"@)
    } else if e == "png"@ {
        Some("image/png"@)
    } else if e == "jpg"@ || e == "jpeg"@ {
        Some("image/jpeg"@)
    } else if e == "gif"@ {
        Some("image/gif"@)
    } else if e == "svg"@ {
        Some("image/svg+xml"@)
    } else if e == "ico"@ {
        Some("image/vnd.microsoft.icon"@)
    } else if e == "webp"@ {
        Some("image/webp"@)
    } else if e == "woff"@ {
        Some("font/woff"@)
    } else if e == "woff2"@ {
        Some("font/woff2"@)
    } else if e == "ttf"@ {
        Some("font/ttf"@)
    } else if e == "otf"@ {
        Some("font/otf"@)
    } else if e == "mp3"@ {
        Some("audio/mpeg"@)
    } else if e == "wav"@ {
        Some("audio/wav"@)
    } else if e == "mp4"@ {
        Some("video/mp4"@)
    } else if e == "webm"@ {
        Some("video/webm"@)
    } else {
        None
    }
}

/// The media type by which a file with the extension `extension` is served:
/// the generic one when it has no extension or one the table does not know.
pub open spec fn media_type(extension: Option<Seq<char>>) -> Seq<char> {
    match extension {
        Some(e) => match known_type(e) {
            Some(t) => t,
            None => generic_type(),
        },
        None => generic_type(),
    }
}

fn named(e: &[char], name: &str) -> (yes: bool)
    ensures
        yes == (e@ == name@),
{
    let wanted = to_chars(name);
    same(e, wanted.as_slice())
}

fn lookup(e: &[char]) -> (found: Option<&'static str>)
    ensures
        match found {
            Some(t) => known_type(e@) == Some(t@),
            None => known_type(e@) is None,
        },
{
    if named(e, "html") || named(e, "htm") {
        Some("text/html")
    } else if named(e, "css") {
        Some("text/css")
    } else if named(e, "js") || named(e, "mjs") {
        Some("text/javascript")
    } else if named(e, "json") {
        Some("application/json")
    } else if named(e, "wasm") {
        Some("application/wasm")
    } else if named(e, "txt") {
        Some("text/plain")
    } else if named(e, "xml") {
        Some("application/xml")
    } else if named(e, "csv") {
        Some("text/csv")
    } else if named(e, "pdf") {
        Some("application/pdf")
    } else if named(e, "png") {
        Some("image/png")
    } else if named(e, "jpg") || named(e, "jpeg") {
        Some("image/jpeg")
    } else if named(e, "gif") {
        Some("image/gif")
    } else if named(e, "svg") {
        Some("image/svg+xml")
    } else if named(e, "ico") {
        Some("image/vnd.microsoft.icon")
    } else if named(e, "webp") {
        Some("image/webp")
    } else if named(e, "woff") {
        Some("font/woff")
    } else if named(e, "woff2") {
        Some("font/woff2")
    } else if named(e, "ttf") {
        Some("font/ttf")
    } else if named(e, "otf") {
        Some("font/otf")
    } else if named(e, "mp3") {
        Some("audio/mpeg")
    } else if named(e, "wav") {
        Some("audio/wav")
    } else if named(e, "mp4") {
        Some("video/mp4")
    } else if named(e, "webm") {
        Some("video/webm")
    } else {
        None
    }
}

/// Pairs a file extension with a media type.
pub fn from_extension(extension: Option<&str>) -> (content_type: &'static str)
    ensures
        content_type@ == media_type(
            match extension {
                Some(e) => Some(e@),
                None => None,
            },
        ),
{
    match extension {
        Some(e) => {
            let e = to_chars(e);
            match lookup(e.as_slice()) {
                Some(t) => t,
                None => "application/octet-stream",
            }
        },
        None => "application/octet-stream",
    }
}

} // verus!
