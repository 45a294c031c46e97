//! SHA-256.
use sha2::{Digest, Sha256};
use vstd::prelude::*;

verus! {

/// The SHA-256 digest of a message.
pub uninterp spec fn sha256_digest(message: Seq<u8>) -> Seq<u8>;

/// Calls `Sha256::digest`.
///
/// Claimed: the digest is a function of the message alone, named
/// `sha256_digest`, and has 32 bytes.
#[verifier::external_body]
pub(crate) fn sha256(message: &[u8]) -> (digest: Vec<u8>)
    ensures
        digest@ == sha256_digest(message@),
        digest.len() == 32,
{
    Sha256::digest(message).to_vec()
}

} // verus!
