//! Trusted wrappers around the hash and base64 primitives.
//!
//! The results of these outside functions are pure functions of their
//! arguments; each is given a name, and every contract of the pipeline
//! speaks of the names.

use vstd::prelude::*;

use sha2::Digest;

verus! {

/// The SHA-256 digest of a byte sequence.
pub uninterp spec fn sha256_of(data: Seq<u8>) -> Seq<u8>;

/// The standard (padded) base64 encoding of a byte sequence.
pub uninterp spec fn base64_of(data: Seq<u8>) -> Seq<char>;

/// What standard base64 decoding yields on a text, if it is valid base64.
pub uninterp spec fn base64_decode_of(text: Seq<char>) -> Option<Seq<u8>>;

/// Relies on sha2::Sha256::digest: the 32-byte SHA-256 digest, a function of
/// the input bytes alone.
#[verifier::external_body]
pub fn sha256(data: &[u8]) -> (r: Vec<u8>)
    ensures
        r@ == sha256_of(data@),
        r@.len() == 32,
{
    sha2::Sha256::digest(data).to_vec()
}

/// Relies on base64::encode: the standard base64 text of the input bytes, a
/// function of them alone. The standard decoder accepts that text and gives
/// the input bytes back, so encoding and decoding round-trip.
#[verifier::external_body]
pub fn base64_encode(data: &[u8]) -> (r: String)
    ensures
        r@ == base64_of(data@),
        base64_decode_of(r@) == Some(data@),
{
    base64::encode(data)
}

/// Relies on base64::decode: succeeds exactly on valid standard base64 and
/// then returns the decoded bytes, a function of the text alone; on failure
/// returns the decoder's reason.
#[verifier::external_body]
pub fn base64_decode(text: &str) -> (r: Result<Vec<u8>, String>)
    ensures
        r is Ok <==> base64_decode_of(text@) is Some,
        r is Ok ==> r->Ok_0@ == base64_decode_of(text@)->Some_0,
{
    base64::decode(text).map_err(|e| format!("{}", e))
}

} // verus!
