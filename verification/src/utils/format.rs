//! Little-endian conversions between bytes, bits and 32-bit limbs.
//!
//! A sequence of bits stands for the number that has bit `i` at weight `2^i`.
//! Bytes are split into eight bits, least significant first, and packed back
//! by groups of eight; a last group that is short is read as if zeros followed.
use crate::errors::ErrorUnexpectedInputSize;
use crate::numbers::{decimal_string, decimal_text};
use crate::trusted::text::{base64_decoding, base64_encode, base64_encoding};
use vstd::arithmetic::power2::{lemma2_to64, lemma_pow2_pos, lemma_pow2_unfold, pow2};
use vstd::bits::{lemma_u32_pow2_no_overflow, lemma_u32_shl_is_mul, lemma_u32_shr_is_div};
use vstd::prelude::*;
use vstd::slice::slice_subrange;

verus! {

/// Bit `i` of the number `x`.
pub open spec fn bit_of(x: nat, i: nat) -> bool {
    (x / pow2(i)) % 2 == 1
}

/// The number that a little-endian sequence of bits stands for.
pub open spec fn le_value(bits: Seq<bool>) -> nat
    decreases bits.len(),
{
    if bits.len() == 0 {
        0
    } else {
        le_value(bits.drop_last()) + if bits.last() {
            pow2((bits.len() - 1) as nat)
        } else {
            0
        }
    }
}

/// The number that a little-endian sequence of bytes stands for.
pub open spec fn le_bytes_value(bytes: Seq<u8>) -> nat
    decreases bytes.len(),
{
    if bytes.len() == 0 {
        0
    } else {
        le_bytes_value(bytes.drop_last()) + bytes.last() as nat * pow2((8 * (bytes.len() - 1)) as nat)
    }
}

/// The lowest `n` bits of `x`, least significant first; a word has no more than 32.
pub open spec fn low_bits(x: u32, n: nat) -> Seq<bool> {
    Seq::new(
        if n < 32 {
            n
        } else {
            32
        },
        |i: int| bit_of(x as nat, i as nat),
    )
}

/// The eight bits of each byte in turn.
pub open spec fn unpacked(bytes: Seq<u8>) -> Seq<bool> {
    Seq::new(8 * bytes.len(), |i: int| bit_of(bytes[i / 8] as nat, (i % 8) as nat))
}

/// The group of at most eight bits that byte `j` of the packed form is made of.
pub open spec fn octet(bits: Seq<bool>, j: int) -> Seq<bool> {
    bits.subrange(
        8 * j,
        if 8 * j + 8 <= bits.len() {
            8 * j + 8
        } else {
            bits.len() as int
        },
    )
}

/// The bytes that groups of eight bits stand for; the last group may be short.
pub open spec fn packed(bits: Seq<bool>) -> Seq<u8> {
    Seq::new(((bits.len() + 7) / 8) as nat, |j: int| le_value(octet(bits, j)) as u8)
}

/// The number of bits that the last limb of a record gives: what is left of
/// `total_bit_len` after the full limbs, and a full limb when nothing is left.
pub open spec fn last_limb_bits(entry_bit_len: nat, total_bit_len: nat) -> nat {
    if total_bit_len % entry_bit_len == 0 {
        entry_bit_len
    } else {
        total_bit_len % entry_bit_len
    }
}

/// The bits of the first `n` limbs, `entry_bit_len` of each.
pub open spec fn full_limb_bits(v: Seq<u32>, entry_bit_len: nat, n: nat) -> Seq<bool>
    decreases n,
{
    if n == 0 {
        Seq::empty()
    } else {
        full_limb_bits(v, entry_bit_len, (n - 1) as nat) + low_bits(v[n - 1], entry_bit_len)
    }
}

/// The bits of a record held in limbs: every limb but the last gives
/// `entry_bit_len` bits, the last gives `last_limb_bits`.
pub open spec fn limb_bits(v: Seq<u32>, entry_bit_len: nat, total_bit_len: nat) -> Seq<bool> {
    if v.len() == 0 {
        Seq::empty()
    } else {
        full_limb_bits(v, entry_bit_len, (v.len() - 1) as nat) + low_bits(
            v.last(),
            last_limb_bits(entry_bit_len, total_bit_len),
        )
    }
}

/// The first `n` limbs give `n` times the bits of one.
pub proof fn lemma_full_limb_bits_len(v: Seq<u32>, entry_bit_len: nat, n: nat)
    requires
        entry_bit_len <= 32,
    ensures
        full_limb_bits(v, entry_bit_len, n).len() == n * entry_bit_len,
    decreases n,
{
    if n > 0 {
        lemma_full_limb_bits_len(v, entry_bit_len, (n - 1) as nat);
        assert(n * entry_bit_len == (n - 1) * entry_bit_len + entry_bit_len) by (nonlinear_arith);
    } else {
        assert(0 * entry_bit_len == 0) by (nonlinear_arith);
    }
}

/// A record held in as many limbs as its size asks for gives back exactly as
/// many bits as it has, and so as many bytes as hold them.
pub proof fn lemma_limb_bits_len(v: Seq<u32>, entry_bit_len: nat, total_bit_len: nat)
    requires
        1 <= entry_bit_len <= 32,
        total_bit_len >= 1,
        v.len() == total_bit_len / entry_bit_len + if total_bit_len % entry_bit_len != 0 {
            1nat
        } else {
            0nat
        },
    ensures
        limb_bits(v, entry_bit_len, total_bit_len).len() == total_bit_len,
        packed(limb_bits(v, entry_bit_len, total_bit_len)).len() == (total_bit_len + 7) / 8,
{
    let q = total_bit_len / entry_bit_len;
    let r = total_bit_len % entry_bit_len;
    vstd::arithmetic::div_mod::lemma_fundamental_div_mod(total_bit_len as int, entry_bit_len as int);
    assert(q * entry_bit_len == entry_bit_len * q) by (nonlinear_arith);
    if r == 0 {
        assert(q >= 1) by (nonlinear_arith)
            requires
                total_bit_len == entry_bit_len * q,
                total_bit_len >= 1,
                entry_bit_len >= 1,
                q >= 0,
        ;
    }
    lemma_full_limb_bits_len(v, entry_bit_len, (v.len() - 1) as nat);
    assert((q - 1) * entry_bit_len + entry_bit_len == q * entry_bit_len) by (nonlinear_arith);
}

/// One more bit at the end adds its weight, when it is set.
pub proof fn lemma_le_value_push(bits: Seq<bool>, i: int)
    requires
        0 <= i < bits.len(),
    ensures
        le_value(bits.take(i + 1)) == le_value(bits.take(i)) + if bits[i] {
            pow2(i as nat)
        } else {
            0
        },
{
    assert(bits.take(i + 1).drop_last() =~= bits.take(i));
}

/// A sequence of `n` bits stands for a number below `2^n`.
pub proof fn lemma_le_value_bound(bits: Seq<bool>)
    ensures
        le_value(bits) < pow2(bits.len()),
    decreases bits.len(),
{
    if bits.len() == 0 {
        lemma2_to64();
    } else {
        lemma_le_value_bound(bits.drop_last());
        lemma_pow2_unfold(bits.len());
    }
}

/// One more byte at the end adds its value at its weight.
pub proof fn lemma_le_bytes_value_push(bytes: Seq<u8>, i: int)
    requires
        0 <= i < bytes.len(),
    ensures
        le_bytes_value(bytes.take(i + 1)) == le_bytes_value(bytes.take(i)) + bytes[i] as nat * pow2(
            (8 * i) as nat,
        ),
{
    assert(bytes.take(i + 1).drop_last() =~= bytes.take(i));
}

/// A sequence of `n` bytes stands for a number below `2^(8n)`.
pub proof fn lemma_le_bytes_value_bound(bytes: Seq<u8>)
    ensures
        le_bytes_value(bytes) < pow2(8 * bytes.len()),
    decreases bytes.len(),
{
    if bytes.len() == 0 {
        lemma2_to64();
    } else {
        let n = bytes.len();
        lemma_le_bytes_value_bound(bytes.drop_last());
        let low = pow2((8 * (n - 1)) as nat);
        lemma_pow2_pos((8 * (n - 1)) as nat);
        vstd::arithmetic::power2::lemma_pow2_adds((8 * (n - 1)) as nat, 8);
        lemma2_to64();
        assert(pow2(8 * n) == low * 256);
        assert(bytes.last() as nat * low <= 255 * low) by (nonlinear_arith)
            requires
                bytes.last() <= 255,
                low > 0,
        ;
    }
}

/// The lowest `n` bits of a number stand for the number modulo `2^n`.
pub proof fn lemma_le_value_of_bits(x: nat, n: nat)
    ensures
        le_value(Seq::new(n, |i: int| bit_of(x, i as nat))) == x % pow2(n),
    decreases n,
{
    let bits = Seq::new(n, |i: int| bit_of(x, i as nat));
    if n == 0 {
        lemma2_to64();
    } else {
        let low = (n - 1) as nat;
        let p = pow2(low) as int;
        lemma_le_value_of_bits(x, low);
        assert(bits.drop_last() =~= Seq::new(low, |i: int| bit_of(x, i as nat)));
        lemma_pow2_pos(low);
        lemma_pow2_unfold(n);
        vstd::arithmetic::div_mod::lemma_mod_breakdown(x as int, p, 2);
        let top = (x as int / p) % 2;
        assert(p * 2 == 2 * p);
        assert(p * top == if top == 1 {
            p
        } else {
            0
        }) by (nonlinear_arith)
            requires
                top == 0 || top == 1,
        ;
    }
}

/// Bit `i` of the number that bits stand for is bit `i` of them.
pub proof fn lemma_bit_of_le_value(bits: Seq<bool>, i: int)
    requires
        0 <= i < bits.len(),
    ensures
        bit_of(le_value(bits), i as nat) == bits[i],
    decreases bits.len(),
{
    let n = bits.len();
    let low = le_value(bits.drop_last()) as int;
    let p = pow2((n - 1) as nat) as int;
    let t: int = if bits.last() {
        1
    } else {
        0
    };
    lemma_le_value_bound(bits.drop_last());
    lemma_pow2_pos((n - 1) as nat);
    assert(le_value(bits) == low + t * p) by (nonlinear_arith)
        requires
            le_value(bits) == low + if t == 1 {
                p
            } else {
                0
            },
            t == 0 || t == 1,
    ;
    if i == n - 1 {
        vstd::arithmetic::div_mod::lemma_fundamental_div_mod_converse(low + t * p, p, t, low);
    } else {
        lemma_bit_of_le_value(bits.drop_last(), i);
        let d = pow2(i as nat);
        let rest = pow2((n - 2 - i) as nat) as int;
        lemma_pow2_pos(i as nat);
        vstd::arithmetic::power2::lemma_pow2_adds(i as nat, (n - 1 - i) as nat);
        lemma_pow2_unfold((n - 1 - i) as nat);
        let j = 2 * t * rest;
        assert(t * p == j * d) by (nonlinear_arith)
            requires
                p == d * (2 * rest),
                j == 2 * t * rest,
        ;
        vstd::arithmetic::div_mod::lemma_hoist_over_denominator(low, j, d);
        assert((low / (d as int) + j) % 2 == (low / (d as int)) % 2) by {
            assert(j == 2 * (t * rest)) by (nonlinear_arith)
                requires
                    j == 2 * t * rest,
            ;
        }
    }
}

/// The lowest bits of the number that at most 32 bits stand for are those bits.
pub proof fn lemma_low_bits_of_le_value(bits: Seq<bool>)
    requires
        bits.len() <= 32,
    ensures
        le_value(bits) <= u32::MAX,
        low_bits(le_value(bits) as u32, bits.len()) == bits,
{
    lemma_le_value_bound(bits);
    lemma2_to64();
    if bits.len() < 32 {
        vstd::arithmetic::power2::lemma_pow2_strictly_increases(bits.len(), 32);
    }
    let again = low_bits(le_value(bits) as u32, bits.len());
    assert forall|i: int| 0 <= i < bits.len() implies again[i] == bits[i] by {
        lemma_bit_of_le_value(bits, i);
    }
    assert(again =~= bits);
}

/// Bytes split into bits and packed again are the bytes.
pub proof fn lemma_packed_unpacked(bytes: Seq<u8>)
    ensures
        packed(unpacked(bytes)) == bytes,
{
    let bits = unpacked(bytes);
    let again = packed(bits);
    assert(again.len() == bytes.len());
    assert forall|j: int| 0 <= j < bytes.len() implies again[j] == bytes[j] by {
        let x = bytes[j] as nat;
        assert(octet(bits, j) =~= Seq::new(8, |i: int| bit_of(x, i as nat)));
        lemma_le_value_of_bits(x, 8);
        lemma2_to64();
    }
    assert(again =~= bytes);
}

/// A heading followed by a length in decimal.
fn describe_length(heading: &str, length: usize) -> (text: String)
    ensures
        text@ == heading@ + decimal_text(length as nat),
{
    String::from_str(heading).concat(decimal_string(length).as_str())
}

/// Splits a byte into its eight bits, least significant first.
pub fn u8_to_bits_le(byte: u8) -> (bits: [bool; 8])
    ensures
        forall|i: int| 0 <= i < 8 ==> bits[i] == bit_of(byte as nat, i as nat),
{
    let bits = [
        byte & 1 != 0,
        byte & 2 != 0,
        byte & 4 != 0,
        byte & 8 != 0,
        byte & 16 != 0,
        byte & 32 != 0,
        byte & 64 != 0,
        byte & 128 != 0,
    ];
    proof {
        lemma2_to64();
        assert((byte & 1 != 0) == ((byte / 1) % 2 == 1) && (byte & 2 != 0) == ((byte / 2) % 2 == 1)
            && (byte & 4 != 0) == ((byte / 4) % 2 == 1) && (byte & 8 != 0) == ((byte / 8) % 2 == 1)
            && (byte & 16 != 0) == ((byte / 16) % 2 == 1) && (byte & 32 != 0) == ((byte / 32) % 2
            == 1) && (byte & 64 != 0) == ((byte / 64) % 2 == 1) && (byte & 128 != 0) == ((byte
            / 128) % 2 == 1)) by (bit_vector);
    }
    bits
}

/// Packs at most eight bits, least significant first, into a byte.
pub fn bits_to_u8_le(xs: &[bool]) -> (byte: u8)
    requires
        xs.len() <= 8,
    ensures
        byte == le_value(xs@),
{
    let mut byte: u8 = 0;
    let mut i: usize = 0;
    proof {
        lemma2_to64();
    }
    while i < xs.len()
        invariant
            i <= xs.len() <= 8,
            byte == le_value(xs@.take(i as int)),
            byte < pow2(i as nat),
        decreases xs.len() - i,
    {
        proof {
            lemma2_to64();
            lemma_le_value_push(xs@, i as int);
            lemma_pow2_unfold((i + 1) as nat);
            assert((1u8 << (i as u8)) == pow2(i as nat)) by {
                assert(1u8 << 0u8 == 1 && 1u8 << 1u8 == 2 && 1u8 << 2u8 == 4 && 1u8 << 3u8 == 8 && 1u8
                    << 4u8 == 16 && 1u8 << 5u8 == 32 && 1u8 << 6u8 == 64 && 1u8 << 7u8 == 128)
                    by (bit_vector);
            }
        }
        if xs[i] {
            byte = byte + (1u8 << (i as u8));
        }
        i = i + 1;
    }
    proof {
        assert(xs@.take(xs.len() as int) =~= xs@);
    }
    byte
}

/// Returns the lowest `bit_len` bits of `x`, least significant first, and all 32
/// where more are asked for.
pub fn u32_to_bits_le(x: u32, bit_len: usize) -> (bits: Vec<bool>)
    ensures
        bits@ == low_bits(x, bit_len as nat),
{
    let n: usize = if bit_len < 32 {
        bit_len
    } else {
        32
    };
    let mut bits: Vec<bool> = Vec::with_capacity(n);
    let mut i: usize = 0;
    while i < n
        invariant
            i <= n <= 32,
            bits.len() == i,
            forall|k: int| 0 <= k < i ==> bits[k] == bit_of(x as nat, k as nat),
        decreases n - i,
    {
        let shifted: u32 = x >> (i as u32);
        proof {
            lemma_u32_shr_is_div(x, i as u32);
            assert((shifted & 1 == 1) == (shifted % 2 == 1)) by (bit_vector);
        }
        bits.push(shifted & 1 == 1);
        i = i + 1;
    }
    proof {
        assert(bits@ =~= low_bits(x, bit_len as nat));
    }
    bits
}

/// Packs bits into bytes by groups of eight; a short last group is padded with zeros.
pub fn bits_to_bytes_le(bits: &[bool]) -> (bytes: Vec<u8>)
    ensures
        bytes@ == packed(bits@),
{
    let len: usize = bits.len();
    let groups: usize = len / 8 + if len % 8 == 0 {
        0
    } else {
        1
    };
    let mut bytes: Vec<u8> = Vec::with_capacity(groups);
    let mut j: usize = 0;
    while j < groups
        invariant
            j <= groups,
            len == bits.len(),
            groups == (len + 7) / 8,
            bytes.len() == j,
            forall|k: int| 0 <= k < j ==> bytes[k] == le_value(octet(bits@, k)) as u8,
        decreases groups - j,
    {
        let start: usize = 8 * j;
        let end: usize = if len - start >= 8 {
            start + 8
        } else {
            len
        };
        let group = slice_subrange(bits, start, end);
        let byte: u8 = bits_to_u8_le(group);
        proof {
            assert(group@ =~= octet(bits@, j as int));
        }
        bytes.push(byte);
        j = j + 1;
    }
    proof {
        assert(bytes@ =~= packed(bits@));
    }
    bytes
}

/// Splits every byte into its eight bits, in order.
pub fn bytes_to_bits_le(bytes: &[u8]) -> (bits: Vec<bool>)
    requires
        8 * bytes.len() <= usize::MAX,
    ensures
        bits@ == unpacked(bytes@),
{
    let mut bits: Vec<bool> = Vec::new();
    let mut j: usize = 0;
    while j < bytes.len()
        invariant
            j <= bytes.len(),
            bits.len() == 8 * j,
            forall|i: int|
                0 <= i < bits.len() ==> bits[i] == bit_of(bytes[i / 8] as nat, (i % 8) as nat),
        decreases bytes.len() - j,
    {
        let group = u8_to_bits_le(bytes[j]);
        let mut k: usize = 0;
        while k < 8
            invariant
                k <= 8,
                j < bytes.len(),
                bits.len() == 8 * j + k,
                forall|i: int| 0 <= i < 8 ==> group[i] == bit_of(bytes[j as int] as nat, i as nat),
                forall|i: int|
                    0 <= i < bits.len() ==> bits[i] == bit_of(bytes[i / 8] as nat, (i % 8) as nat),
            decreases 8 - k,
        {
            bits.push(group[k]);
            k = k + 1;
        }
        j = j + 1;
    }
    proof {
        assert(bits@ =~= unpacked(bytes@));
    }
    bits
}

/// Reads at most 32 bits, least significant first, as a number.
///
/// Fails exactly when there are more than 32 bits.
pub fn bits_to_u32_le(bits: &[bool]) -> (word: Result<u32, ErrorUnexpectedInputSize>)
    ensures
        match word {
            Ok(x) => bits.len() <= 32 && x == le_value(bits@),
            Err(e) => bits.len() > 32 && e.details()
                == "bits are too long to parse as u32, length: "@ + decimal_text(bits.len() as nat),
        },
{
    if bits.len() > 32 {
        return Err(
            ErrorUnexpectedInputSize::new(
                describe_length("bits are too long to parse as u32, length: ", bits.len()),
            ),
        );
    }
    let mut word: u32 = 0;
    let mut i: usize = 0;
    proof {
        lemma2_to64();
    }
    while i < bits.len()
        invariant
            i <= bits.len() <= 32,
            word == le_value(bits@.take(i as int)),
            word < pow2(i as nat),
        decreases bits.len() - i,
    {
        proof {
            lemma_le_value_push(bits@, i as int);
            lemma_pow2_unfold((i + 1) as nat);
            lemma_u32_pow2_no_overflow(i as nat);
            lemma_u32_shl_is_mul(1u32, i as u32);
            if i + 1 <= 31 {
                lemma_u32_pow2_no_overflow((i + 1) as nat);
            } else {
                lemma2_to64();
            }
        }
        if bits[i] {
            word = word + (1u32 << (i as u32));
        }
        i = i + 1;
    }
    proof {
        assert(bits@.take(bits.len() as int) =~= bits@);
    }
    Ok(word)
}

/// Reads at most four bytes, least significant first, as a number.
///
/// Fails exactly when there are more than four bytes.
pub fn bytes_to_u32_le(bytes: Vec<u8>) -> (word: Result<u32, ErrorUnexpectedInputSize>)
    ensures
        match word {
            Ok(x) => bytes.len() <= 4 && x == le_bytes_value(bytes@),
            Err(e) => bytes.len() > 4 && e.details()
                == "bytes are too long to parse as u32, length: "@ + decimal_text(
                bytes.len() as nat,
            ),
        },
{
    let byte_len: usize = bytes.len();
    if byte_len > 4 {
        return Err(
            ErrorUnexpectedInputSize::new(
                describe_length("bytes are too long to parse as u32, length: ", byte_len),
            ),
        );
    }
    let mut word: u32 = 0;
    let mut i: usize = 0;
    proof {
        lemma2_to64();
    }
    while i < byte_len
        invariant
            i <= byte_len <= 4,
            byte_len == bytes.len(),
            word == le_bytes_value(bytes@.take(i as int)),
            word < pow2((8 * i) as nat),
        decreases byte_len - i,
    {
        let shift: u32 = 8 * (i as u32);
        let byte: u32 = bytes[i] as u32;
        proof {
            lemma2_to64();
            lemma_le_bytes_value_push(bytes@, i as int);
            lemma_le_bytes_value_bound(bytes@.take(i as int + 1));
            let low = pow2((8 * i) as nat);
            lemma_pow2_pos((8 * i) as nat);
            assert(byte * low <= 255 * low) by (nonlinear_arith)
                requires
                    byte <= 255,
                    low > 0,
            ;
            assert(pow2((8 * (i + 1)) as nat) <= 0x1_0000_0000) by {
                if i == 0 {
                } else if i == 1 {
                } else if i == 2 {
                } else {
                }
            }
            lemma_u32_shl_is_mul(byte, shift);
        }
        word = word + (byte << shift);
        i = i + 1;
    }
    proof {
        assert(bytes@.take(byte_len as int) =~= bytes@);
    }
    Ok(word)
}

/// Turns a vector of exactly four bytes into an array.
///
/// Fails exactly when the vector has another length.
pub fn u32_sized_bytes_from_vec(bytes: Vec<u8>) -> (array: Result<
    [u8; 4],
    ErrorUnexpectedInputSize,
>)
    ensures
        match array {
            Ok(a) => a@ == bytes@,
            Err(e) => bytes.len() != 4 && e.details() == "Unexpected vector size: "@
                + decimal_text(bytes.len() as nat),
        },
{
    if bytes.len() != 4 {
        return Err(
            ErrorUnexpectedInputSize::new(
                describe_length("Unexpected vector size: ", bytes.len()),
            ),
        );
    }
    let array: [u8; 4] = [bytes[0], bytes[1], bytes[2], bytes[3]];
    proof {
        assert(array@ =~= bytes@);
    }
    Ok(array)
}

/// Writes a record held in limbs back as bytes: `entry_bit_len` bits of every
/// limb but the last, the rest of `total_bit_len` from the last, packed by eight.
pub fn bytes_from_u32_slice(v: &[u32], entry_bit_len: usize, total_bit_len: usize) -> (bytes: Vec<
    u8,
>)
    requires
        entry_bit_len > 0,
    ensures
        bytes@ == packed(limb_bits(v@, entry_bit_len as nat, total_bit_len as nat)),
{
    let remainder: usize = total_bit_len % entry_bit_len;
    let last_bit_len: usize = if remainder == 0 {
        entry_bit_len
    } else {
        remainder
    };
    let mut bits: Vec<bool> = Vec::new();
    let mut i: usize = 0;
    while i < v.len()
        invariant
            i <= v.len(),
            last_bit_len == last_limb_bits(entry_bit_len as nat, total_bit_len as nat),
            i < v.len() ==> bits@ == full_limb_bits(v@, entry_bit_len as nat, i as nat),
            i == v.len() ==> bits@ == limb_bits(v@, entry_bit_len as nat, total_bit_len as nat),
        decreases v.len() - i,
    {
        let width: usize = if i != v.len() - 1 {
            entry_bit_len
        } else {
            last_bit_len
        };
        let mut limb = u32_to_bits_le(v[i], width);
        bits.append(&mut limb);
        i = i + 1;
    }
    bits_to_bytes_le(bits.as_slice())
}

/// Writes a record held in limbs back as base64 text.
pub fn base64_from_u32_slice(v: &[u32], entry_bit_len: usize, total_bit_len: usize) -> (text:
    String)
    requires
        entry_bit_len > 0,
    ensures
        text@ == base64_encoding(
            packed(limb_bits(v@, entry_bit_len as nat, total_bit_len as nat)),
        ),
        base64_decoding(text@) == Some(
            packed(limb_bits(v@, entry_bit_len as nat, total_bit_len as nat)),
        ),
{
    let bytes = bytes_from_u32_slice(v, entry_bit_len, total_bit_len);
    base64_encode(bytes.as_slice())
}

} // verus!
