//! Constants of the rounding that hides a database limb in a 32-bit word.
use vstd::arithmetic::power2::{lemma2_to64, lemma_pow2_pos, lemma_pow2_subtracts, pow2};
use vstd::bits::{lemma_u32_pow2_no_overflow, lemma_u32_shl_is_mul};
use vstd::prelude::*;

verus! {

/// The modulus of the ring: 2^32.
pub const MODULUS: u64 = 0x1_0000_0000;

/// The number of values a limb of `plaintext_bits` bits can take.
pub open spec fn plaintext_size(plaintext_bits: nat) -> nat {
    pow2(plaintext_bits)
}

/// The step between two neighbouring limb values once they are scaled up to 32 bits:
/// the modulus divided by the plaintext size, rounded down.
pub open spec fn rounding_factor(plaintext_bits: nat) -> nat {
    MODULUS as nat / plaintext_size(plaintext_bits)
}

/// Half a step: a remainder above it rounds up.
pub open spec fn rounding_floor(plaintext_bits: nat) -> nat {
    rounding_factor(plaintext_bits) / 2
}

/// The rounding factor is itself a power of two.
pub proof fn lemma_rounding_factor_is_pow2(plaintext_bits: nat)
    requires
        plaintext_bits <= 32,
    ensures
        rounding_factor(plaintext_bits) == pow2((32 - plaintext_bits) as nat),
        rounding_factor(plaintext_bits) * plaintext_size(plaintext_bits) == MODULUS,
{
    lemma2_to64();
    lemma_pow2_pos(plaintext_bits);
    lemma_pow2_subtracts(plaintext_bits, 32);
    let p = pow2(plaintext_bits) as int;
    let f = pow2((32 - plaintext_bits) as nat) as int;
    vstd::arithmetic::power2::lemma_pow2_adds((32 - plaintext_bits) as nat, plaintext_bits);
    assert(f * p == 0x1_0000_0000);
}

/// Returns the indicator that marks the queried row: the rounding factor.
pub fn get_rounding_factor(plaintext_bits: usize) -> (factor: u32)
    requires
        1 <= plaintext_bits < 32,
    ensures
        factor == rounding_factor(plaintext_bits as nat),
        factor > 0,
{
    let size: u32 = get_plaintext_size(plaintext_bits);
    proof {
        lemma_rounding_factor_is_pow2(plaintext_bits as nat);
        lemma_u32_pow2_no_overflow((32 - plaintext_bits) as nat);
    }
    (MODULUS / (size as u64)) as u32
}

/// Returns the bound above which a remainder rounds up.
pub fn get_rounding_floor(plaintext_bits: usize) -> (floor: u32)
    requires
        1 <= plaintext_bits < 32,
    ensures
        floor == rounding_floor(plaintext_bits as nat),
{
    get_rounding_factor(plaintext_bits) / 2
}

/// Returns the modulus of the plaintext space.
pub fn get_plaintext_size(plaintext_bits: usize) -> (size: u32)
    requires
        plaintext_bits < 32,
    ensures
        size == plaintext_size(plaintext_bits as nat),
        size > 0,
{
    proof {
        lemma_u32_pow2_no_overflow(plaintext_bits as nat);
        lemma_u32_shl_is_mul(1u32, plaintext_bits as u32);
    }
    1u32 << (plaintext_bits as u32)
}

} // verus!
