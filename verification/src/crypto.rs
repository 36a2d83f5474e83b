//! The two outside computations behind the accept token: a SHA-1 digest and
//! its base64 text. Neither is proved here; each is given a name, and the
//! functions below are believed to compute what the name stands for.

use base64::Engine;
use sha1::Digest;
use vstd::prelude::*;
use vstd::utf8::*;

verus! {

/// The SHA-1 digest of `data`, as the `sha1` crate computes it.
pub uninterp spec fn sha1_digest(data: Seq<u8>) -> Seq<u8>;

/// The base64 text of `data` in the standard alphabet, with padding, as
/// the `base64` crate's `STANDARD` engine writes it.
pub uninterp spec fn base64_standard(data: Seq<u8>) -> Seq<char>;

/// Computes the SHA-1 digest of `data`.
///
/// Stands for `sha1::Sha1::digest`. Believed of it: the result is the
/// digest of exactly these bytes, and a digest is twenty bytes long.
#[verifier::external_body]
pub(crate) fn sha1_of(data: &[u8]) -> (digest: Vec<u8>)
    ensures
        digest@ == sha1_digest(data@),
        digest@.len() == 20,
{
    sha1::Sha1::digest(data).to_vec()
}

/// Writes `data` as base64 text.
///
/// Stands for `Engine::encode` on `base64::engine::general_purpose::STANDARD`.
/// Believed of it: the result is the standard padded encoding of exactly
/// these bytes; it holds four characters for every three bytes begun; and
/// all of them are ASCII. The input is kept short enough for that length
/// to fit in a `usize`.
#[verifier::external_body]
pub(crate) fn base64_of(data: &[u8]) -> (text: String)
    requires
        data@.len() <= usize::MAX / 4 * 3,
    ensures
        text@ == base64_standard(data@),
        text@.len() == 4 * ((data@.len() + 2) / 3),
        is_ascii_chars(text@),
{
    base64::engine::general_purpose::STANDARD.encode(data)
}

} // verus!
