//! Random words: a stream expanded from a seed, and the operating system's source.
use rand::rngs::StdRng;
use rand_core::{OsRng, RngCore, SeedableRng};
use vstd::prelude::*;

verus! {

/// The seeded generator of `rand`.
#[verifier::external_type_specification]
#[verifier::external_body]
pub struct ExStdRng(StdRng);

/// The seed that a generator was made from.
pub uninterp spec fn stream_seed(rng: StdRng) -> Seq<u8>;

/// The number of words that a generator has handed out.
pub uninterp spec fn stream_position(rng: StdRng) -> nat;

/// The word that a generator made from `seed` hands out after `position` others.
pub uninterp spec fn stream_word(seed: Seq<u8>, position: nat) -> u32;

/// Calls `StdRng::from_seed`.
///
/// Claimed: the generator remembers its seed and has handed out nothing yet.
#[verifier::external_body]
pub(crate) fn seeded_stream(seed: [u8; 32]) -> (rng: StdRng)
    ensures
        stream_seed(rng) == seed@,
        stream_position(rng) == 0,
{
    StdRng::from_seed(seed)
}

/// Calls `RngCore::next_u32` on a seeded generator.
///
/// Claimed: the word depends on the seed and on how many words went before,
/// and on nothing else; the generator moves on by one word.
#[verifier::external_body]
pub(crate) fn next_stream_word(rng: &mut StdRng) -> (word: u32)
    ensures
        word == stream_word(stream_seed(*old(rng)), stream_position(*old(rng))),
        stream_seed(*final(rng)) == stream_seed(*old(rng)),
        stream_position(*final(rng)) == stream_position(*old(rng)) + 1,
{
    rng.next_u32()
}

/// Calls `OsRng.next_u32`: a word from the operating system's source.
/// Nothing is claimed of it.
#[verifier::external_body]
pub(crate) fn os_random_word() -> (word: u32) {
    OsRng.next_u32()
}

/// Calls `OsRng.fill_bytes` on 32 bytes: a fresh seed from the operating
/// system's source. Nothing is claimed of it.
#[verifier::external_body]
pub(crate) fn generate_seed() -> (seed: [u8; 32]) {
    let mut seed = [0u8; 32];
    OsRng.fill_bytes(&mut seed);
    seed
}

} // verus!
