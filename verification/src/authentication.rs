//! Signature schemes.
//!
//! The coordinator verifies a detached signature over a canonical message;
//! the scheme itself is pluggable. A scheme carries its own specification
//! predicate, so that the pipeline's contracts can say against which message
//! a request was checked.

use vstd::prelude::*;

verus! {

/// A detached-signature scheme.
///
/// `verify` returns true iff the signature was produced by the private key
/// corresponding to `pubkey` over exactly `message`; what that means for a
/// concrete scheme is its `verify_spec`.
pub trait Signature {
    /// What the scheme accepts.
    spec fn verify_spec(&self, pubkey: Seq<char>, message: Seq<char>, signature: Seq<char>) -> bool;

    /// Checks `signature` over `message` against `pubkey`.
    fn verify(&self, pubkey: &str, message: &str, signature: &str) -> (r: bool)
        ensures
            r == self.verify_spec(pubkey@, message@, signature@),
    ;
}

/// A scheme that accepts every signature; for development setups.
pub struct Dummy;

impl Signature for Dummy {
    open spec fn verify_spec(
        &self,
        pubkey: Seq<char>,
        message: Seq<char>,
        signature: Seq<char>,
    ) -> bool {
        true
    }

    fn verify(&self, pubkey: &str, message: &str, signature: &str) -> (r: bool) {
        true
    }
}

} // verus!
