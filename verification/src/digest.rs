//! The SHA-256 digest, computed by the `sha2` crate.

use sha2::{Digest, Sha256};
use vstd::prelude::*;

verus! {

/// The digest that `sha2` computes over `data` with `Sha256`.
pub uninterp spec fn sha256(data: Seq<u8>) -> Seq<u8>;

/// Calls `Sha256::digest` of the `sha2` crate, which feeds `data` to a fresh
/// hasher and finishes it. Trusted: the result is a function of the bytes
/// alone, named `sha256`, and it is 32 bytes long, the output size that the
/// crate declares for `Sha256`.
#[verifier::external_body]
pub(crate) fn sha256_digest(data: &[u8]) -> (digest: Vec<u8>)
    ensures
        digest@ == sha256(data@),
        digest@.len() == 32,
{
    Sha256::digest(data).to_vec()
}

} // verus!
