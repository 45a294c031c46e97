//! The parameters of the retrieval scheme as a command line or an
//! environment gives them.
use crate::numbers::{parse_number, parsed_number};
use vstd::arithmetic::power2::pow2;
use vstd::prelude::*;

verus! {

/// The parameters of the retrieval scheme.
#[derive(Debug)]
pub struct CLIFlags {
    /// The number of records of the database.
    pub matrix_height: usize,
    /// The dimension of the secret vector.
    pub lwe_dim: usize,
    /// The number of bits of a limb.
    pub plaintext_bits: usize,
    /// The number of bits of a record.
    pub ele_size: usize,
}

impl Default for CLIFlags {
    /// The parameters where nothing is said: 2^16 records of 2^13 bits, limbs
    /// of 10 bits, secrets of 2048 words.
    fn default() -> (flags: CLIFlags)
        ensures
            flags.matrix_height == 65536,
            flags.lwe_dim == 2048,
            flags.plaintext_bits == 10,
            flags.ele_size == 8192,
    {
        CLIFlags { matrix_height: 65536, lwe_dim: 2048, plaintext_bits: 10, ele_size: 8192 }
    }
}

impl CLIFlags {
    /// The parameters that four texts name: the logarithm of the number of
    /// bits of a record, the dimension, the number of bits of a limb, and the
    /// logarithm of the number of records.
    ///
    /// Gives nothing where one of the texts is no number of its size.
    pub fn from_values(
        ele_size_exp: &str,
        lwe_dim: &str,
        plaintext_bits: &str,
        matrix_height_exp: &str,
    ) -> (flags: Option<CLIFlags>)
        requires
            is_exponent(ele_size_exp@) ==> exponent_of(ele_size_exp@) < 32,
            is_exponent(matrix_height_exp@) ==> exponent_of(matrix_height_exp@) < 32,
        ensures
            match flags {
                Some(flags) => {
                    &&& is_exponent(ele_size_exp@)
                    &&& flags.ele_size == pow2(exponent_of(ele_size_exp@))
                    &&& parsed_number(lwe_dim@) == Some(flags.lwe_dim as nat)
                    &&& parsed_number(plaintext_bits@) == Some(flags.plaintext_bits as nat)
                    &&& is_exponent(matrix_height_exp@)
                    &&& flags.matrix_height == pow2(exponent_of(matrix_height_exp@))
                },
                None => {
                    ||| !is_exponent(ele_size_exp@)
                    ||| !is_exponent(matrix_height_exp@)
                    ||| !(parsed_number(lwe_dim@) matches Some(n) && n <= usize::MAX)
                    ||| !(parsed_number(plaintext_bits@) matches Some(n) && n <= usize::MAX)
                },
            },
    {
        let ele_size = match parse_exp_to_usize(ele_size_exp) {
            Some(n) => n,
            None => {
                return None;
            },
        };
        let lwe_dim = match parse_number(lwe_dim, usize::MAX as u64) {
            Some(n) => n as usize,
            None => {
                return None;
            },
        };
        let plaintext_bits = match parse_number(plaintext_bits, usize::MAX as u64) {
            Some(n) => n as usize,
            None => {
                return None;
            },
        };
        let matrix_height = match parse_exp_to_usize(matrix_height_exp) {
            Some(n) => n,
            None => {
                return None;
            },
        };
        Some(CLIFlags { matrix_height, lwe_dim, plaintext_bits, ele_size })
    }
}

/// A text names an exponent: a number that fits 32 bits.
pub open spec fn is_exponent(text: Seq<char>) -> bool {
    parsed_number(text) matches Some(exp) && exp <= u32::MAX
}

/// The exponent that a text names.
pub open spec fn exponent_of(text: Seq<char>) -> nat {
    parsed_number(text).unwrap()
}

/// Reads an exponent and gives two to that power.
///
/// Gives nothing exactly when the text names no exponent.
pub fn parse_exp_to_usize(v: &str) -> (power: Option<usize>)
    requires
        is_exponent(v@) ==> exponent_of(v@) < 32,
    ensures
        match power {
            Some(power) => is_exponent(v@) && power == pow2(exponent_of(v@)),
            None => !is_exponent(v@),
        },
{
    match parse_number(v, u32::MAX as u64) {
        Some(exp) => Some(crate::utils::lwe::get_plaintext_size(exp as usize) as usize),
        None => None,
    }
}

} // verus!
