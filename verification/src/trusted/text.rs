//! Text encodings of bytes: base64 and hexadecimal.
use vstd::prelude::*;

verus! {

/// The error of `base64::decode`.
#[verifier::external_type_specification]
#[verifier::external_body]
pub struct ExDecodeError(base64::DecodeError);

/// What `base64::decode` makes of a text: the bytes it stands for, or nothing
/// where the text is refused.
pub uninterp spec fn base64_decoding(text: Seq<char>) -> Option<Seq<u8>>;

/// What `base64::encode` makes of bytes.
pub uninterp spec fn base64_encoding(bytes: Seq<u8>) -> Seq<char>;

/// The character that `hex` writes for a value below sixteen: a digit, or a
/// lower-case letter from `a` to `f`.
pub open spec fn hex_char(nibble: nat) -> char {
    if nibble < 10 {
        (nibble + 48) as char
    } else {
        (nibble + 87) as char
    }
}

/// The hexadecimal text of bytes: two characters for each, the high half first.
pub open spec fn hex_text(bytes: Seq<u8>) -> Seq<char> {
    Seq::new(
        2 * bytes.len(),
        |i: int|
            hex_char(
                if i % 2 == 0 {
                    bytes[i / 2] as nat / 16
                } else {
                    bytes[i / 2] as nat % 16
                },
            ),
    )
}

/// Calls `base64::decode`, which reads a text in the standard alphabet.
///
/// Claimed: the result is a function of the text alone, named `base64_decoding`.
#[verifier::external_body]
pub(crate) fn base64_decode(text: &str) -> (decoded: Result<Vec<u8>, base64::DecodeError>)
    ensures
        match decoded {
            Ok(bytes) => base64_decoding(text@) == Some(bytes@),
            Err(_) => base64_decoding(text@) is None,
        },
{
    base64::decode(text)
}

/// Calls `base64::encode`, which writes bytes in the standard alphabet with padding.
///
/// Claimed: the result is a function of the bytes alone, named
/// `base64_encoding`, and `base64::decode` reads it back as the same bytes.
#[verifier::external_body]
pub(crate) fn base64_encode(bytes: &[u8]) -> (text: String)
    ensures
        text@ == base64_encoding(bytes@),
        base64_decoding(text@) == Some(bytes@),
{
    base64::encode(bytes)
}

/// A text without its commas.
pub open spec fn no_commas(text: Seq<char>) -> Seq<char> {
    text.filter(|c: char| c != ',')
}

/// Calls `str::replace` of the standard library to take the commas out of a text.
///
/// Claimed: what is left are the other characters, in order.
#[verifier::external_body]
pub(crate) fn remove_commas(text: &str) -> (clean: String)
    ensures
        clean@ == no_commas(text@),
{
    text.replace(",", "")
}

/// Calls `hex::encode`, which writes each byte as two lower-case hexadecimal
/// characters, the high half first.
#[verifier::external_body]
pub(crate) fn hex_encode(bytes: &[u8]) -> (text: String)
    ensures
        text@ == hex_text(bytes@),
{
    hex::encode(bytes)
}

} // verus!
