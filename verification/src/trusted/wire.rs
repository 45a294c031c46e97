//! Vectors of words in wire form, written and read by `bincode`.
use crate::wire::{wire_decoding, wire_encoding};
use vstd::prelude::*;

verus! {

/// The kinds of error of `bincode`; its error type is a box of this.
#[verifier::external_type_specification]
#[verifier::external_body]
pub struct ExErrorKind(bincode::ErrorKind);

/// Calls `bincode::serialize` on a vector of words.
///
/// Claimed: with the options of that function (fixed-width integers, little
/// endian, no size limit) a vector is written as its length in eight bytes
/// followed by its words in four bytes each, and writing into memory does not
/// fail.
#[verifier::external_body]
pub(crate) fn serialize_words(words: &Vec<u32>) -> (bytes: Result<Vec<u8>, bincode::Error>)
    ensures
        bytes is Ok,
        bytes.unwrap()@ == wire_encoding(words@),
{
    bincode::serialize(words)
}

/// Calls `bincode::deserialize` for a vector of words.
///
/// Claimed: it reads a length of eight bytes, which has to fit a `usize`, then
/// that many words of four bytes each, and fails where the bytes end before
/// that; bytes that follow the last word are accepted and ignored.
#[verifier::external_body]
pub(crate) fn deserialize_words(bytes: &[u8]) -> (words: Result<Vec<u32>, bincode::Error>)
    ensures
        match words {
            Ok(w) => wire_decoding(bytes@) == Some(w@),
            Err(_) => wire_decoding(bytes@) is None,
        },
{
    bincode::deserialize(bytes)
}

} // verus!
