//! The wire form of a vector of words: its length, then the words.
//!
//! Everything is written least significant byte first: the length in eight
//! bytes, every word in four.
use crate::utils::format::le_bytes_value;
use vstd::arithmetic::power2::{lemma2_to64, lemma_pow2_adds, lemma_pow2_pos, pow2};
use vstd::prelude::*;

verus! {

/// The `count` lowest bytes of a number, least significant first.
pub open spec fn le_bytes_of(x: nat, count: nat) -> Seq<u8> {
    Seq::new(count, |i: int| ((x / pow2((8 * i) as nat)) % 256) as u8)
}

/// The four bytes of every word in turn, least significant first.
pub open spec fn words_bytes(words: Seq<u32>) -> Seq<u8> {
    Seq::new(4 * words.len(), |i: int| le_bytes_of(words[i / 4] as nat, 4)[i % 4])
}

/// The wire form of a vector of words.
pub open spec fn wire_encoding(words: Seq<u32>) -> Seq<u8> {
    le_bytes_of(words.len(), 8) + words_bytes(words)
}

/// The number of words that a wire form announces.
pub open spec fn wire_count(bytes: Seq<u8>) -> nat {
    le_bytes_value(bytes.take(8))
}

/// Word `i` of a wire form.
pub open spec fn wire_word(bytes: Seq<u8>, i: int) -> u32 {
    le_bytes_value(bytes.subrange(8 + 4 * i, 12 + 4 * i)) as u32
}

/// The vector that a wire form stands for: the announced number of words,
/// where the bytes hold a count that a length can take and at least as many
/// words as it announces. Bytes after the last word are not read.
pub open spec fn wire_decoding(bytes: Seq<u8>) -> Option<Seq<u32>> {
    if bytes.len() >= 8 && wire_count(bytes) <= usize::MAX && 8 + 4 * wire_count(bytes)
        <= bytes.len() {
        Some(Seq::new(wire_count(bytes), |i: int| wire_word(bytes, i)))
    } else {
        None
    }
}

/// The `count` lowest bytes of a number stand for the number modulo `2^(8 count)`.
pub proof fn lemma_le_bytes_value_of_bytes(x: nat, count: nat)
    ensures
        le_bytes_value(le_bytes_of(x, count)) == x % pow2(8 * count),
    decreases count,
{
    let bytes = le_bytes_of(x, count);
    lemma2_to64();
    if count > 0 {
        let low = (count - 1) as nat;
        let p = pow2(8 * low) as int;
        lemma_le_bytes_value_of_bytes(x, low);
        assert(bytes.drop_last() =~= le_bytes_of(x, low));
        lemma_pow2_pos(8 * low);
        lemma_pow2_adds(8 * low, 8);
        vstd::arithmetic::div_mod::lemma_mod_breakdown(x as int, p, 256);
        let top = (x as int / p) % 256;
        assert(bytes.last() as int == top);
        assert(top * p == p * top) by (nonlinear_arith);
    }
}

/// A vector written in wire form is read back as it was.
pub proof fn lemma_wire_round_trip(words: Seq<u32>)
    requires
        words.len() <= usize::MAX,
    ensures
        wire_decoding(wire_encoding(words)) == Some(words),
{
    let bytes = wire_encoding(words);
    lemma2_to64();
    assert(bytes.take(8) =~= le_bytes_of(words.len(), 8));
    lemma_le_bytes_value_of_bytes(words.len(), 8);
    assert(pow2(8 * 8) == 0x1_0000_0000_0000_0000);
    vstd::arithmetic::div_mod::lemma_small_mod(words.len(), pow2(8 * 8));
    assert(wire_count(bytes) == words.len());
    let read = Seq::new(wire_count(bytes), |i: int| wire_word(bytes, i));
    assert forall|i: int| 0 <= i < words.len() implies read[i] == words[i] by {
        assert(bytes.subrange(8 + 4 * i, 12 + 4 * i) =~= le_bytes_of(words[i] as nat, 4));
        lemma_le_bytes_value_of_bytes(words[i] as nat, 4);
        assert(pow2(8 * 4) == 0x1_0000_0000);
        vstd::arithmetic::div_mod::lemma_small_mod(words[i] as nat, pow2(8 * 4));
    }
    assert(read =~= words);
}

} // verus!
