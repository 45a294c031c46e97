//! Prefixes of hashes: the first four bytes as a number, and the first
//! hexadecimal digits reduced to a bucket.
use crate::trusted::text::{hex_char, hex_encode, hex_text};
use crate::utils::format::{bytes_to_u32_le, le_bytes_value};
use crate::utils::lwe::get_plaintext_size;
use vstd::arithmetic::power2::{lemma2_to64, lemma_pow2_adds, pow2};
use vstd::prelude::*;
use vstd::slice::{slice_subrange, slice_to_vec};
use vstd::utf8::is_ascii_chars;

verus! {

/// The first four bytes read as a little-endian number, reduced modulo
/// `2^prefix_bit_len` where fewer than 32 bits are asked for.
pub open spec fn prefix_of(bytes: Seq<u8>, prefix_bit_len: nat) -> u32 {
    if prefix_bit_len < 32 {
        (le_bytes_value(bytes.take(4)) % pow2(prefix_bit_len)) as u32
    } else {
        le_bytes_value(bytes.take(4)) as u32
    }
}

/// Hexadecimal digit `i` of bytes: the high half of a byte comes first.
pub open spec fn nibble(bytes: Seq<u8>, i: int) -> nat {
    if i % 2 == 0 {
        bytes[i / 2] as nat / 16
    } else {
        bytes[i / 2] as nat % 16
    }
}

/// The number that the first `digits` hexadecimal digits of bytes stand for.
pub open spec fn hex_prefix_value(bytes: Seq<u8>, digits: nat) -> nat
    decreases digits,
{
    if digits == 0 {
        0
    } else {
        16 * hex_prefix_value(bytes, (digits - 1) as nat) + nibble(bytes, digits - 1)
    }
}

/// A longer prefix stands for a number that is no smaller.
pub proof fn lemma_hex_prefix_value_grows(bytes: Seq<u8>, shorter: nat, longer: nat)
    requires
        shorter <= longer,
    ensures
        hex_prefix_value(bytes, shorter) <= hex_prefix_value(bytes, longer),
    decreases longer,
{
    if shorter < longer {
        lemma_hex_prefix_value_grows(bytes, shorter, (longer - 1) as nat);
    }
}

/// The first digits stand for a number below sixteen to their count; sixteen
/// of them stand for a number below 2^64.
pub proof fn lemma_hex_prefix_value_bound(bytes: Seq<u8>, digits: nat)
    ensures
        hex_prefix_value(bytes, digits) < pow2(4 * digits),
    decreases digits,
{
    lemma2_to64();
    if digits > 0 {
        lemma_hex_prefix_value_bound(bytes, (digits - 1) as nat);
        lemma_pow2_adds((4 * (digits - 1)) as nat, 4);
        assert(nibble(bytes, digits - 1) < 16);
    }
}

/// Returns the first four bytes as a little-endian number, reduced to its
/// lowest `prefix_bit_len` bits where that is fewer than 32.
pub fn get_prefix(bytes: &[u8], prefix_bit_len: u32) -> (prefix: u32)
    requires
        bytes.len() >= 4,
    ensures
        prefix == prefix_of(bytes@, prefix_bit_len as nat),
{
    let head = slice_to_vec(slice_subrange(bytes, 0, 4));
    proof {
        assert(head@ =~= bytes@.take(4));
    }
    let mut val: u32 = match bytes_to_u32_le(head) {
        Ok(val) => val,
        Err(_) => {
            // Four bytes always read as a word.
            assert(false);
            0
        },
    };
    if prefix_bit_len < 32 {
        val = val % get_plaintext_size(prefix_bit_len as usize);
    }
    val
}

/// Returns the number that the first `hex_prefix_len` hexadecimal digits of
/// `bytes` stand for, reduced modulo `bound`.
pub fn get_mod_prefix(bytes: &[u8], hex_prefix_len: usize, bound: u32) -> (bucket: u32)
    requires
        1 <= hex_prefix_len <= 2 * bytes.len(),
        hex_prefix_value(bytes@, hex_prefix_len as nat) <= u64::MAX,
        bound > 0,
    ensures
        bucket == hex_prefix_value(bytes@, hex_prefix_len as nat) % (bound as nat),
{
    let h = hex_encode(bytes);
    proof {
        assert forall|i: int| 0 <= i < h@.len() implies (h@[i] as nat) < 128 by {
            assert(h@[i] == hex_char(nibble(bytes@, i)));
        }
        assert(is_ascii_chars(h@));
    }
    let mut val: u64 = 0;
    let mut i: usize = 0;
    while i < hex_prefix_len
        invariant
            i <= hex_prefix_len <= 2 * bytes.len(),
            h@ == hex_text(bytes@),
            h.is_ascii(),
            val == hex_prefix_value(bytes@, i as nat),
            hex_prefix_value(bytes@, hex_prefix_len as nat) <= u64::MAX,
        decreases hex_prefix_len - i,
    {
        let c: u8 = h.as_str().get_ascii(i);
        proof {
            assert(h@[i as int] == hex_char(nibble(bytes@, i as int)));
            lemma_hex_prefix_value_grows(bytes@, (i + 1) as nat, hex_prefix_len as nat);
        }
        let digit: u64 = if c < 58 {
            (c - 48) as u64
        } else {
            (c - 87) as u64
        };
        val = val * 16 + digit;
        i = i + 1;
    }
    (val % (bound as u64)) as u32
}

} // verus!
