use frodo_pir::utils::format::{
    base64_from_u32_slice, bits_to_bytes_le, bits_to_u32_le, bits_to_u8_le, bytes_from_u32_slice,
    bytes_to_bits_le, bytes_to_u32_le, u32_sized_bytes_from_vec, u32_to_bits_le, u8_to_bits_le,
};
use frodo_pir::utils::lwe::{get_plaintext_size, get_rounding_factor, get_rounding_floor};

#[test]
fn rounding_constants_for_ten_bits() {
    assert_eq!(get_plaintext_size(10), 1024);
    assert_eq!(get_rounding_factor(10), 4_194_304);
    assert_eq!(get_rounding_floor(10), 2_097_152);
}

#[test]
fn rounding_constants_at_the_edges() {
    assert_eq!(get_plaintext_size(0), 1);
    assert_eq!(get_plaintext_size(31), 2_147_483_648);
    assert_eq!(get_rounding_factor(1), 2_147_483_648);
    assert_eq!(get_rounding_factor(31), 2);
    assert_eq!(get_rounding_floor(31), 1);
    assert_eq!(get_rounding_factor(12), 1 << 20);
}

#[test]
fn byte_splits_into_bits_least_significant_first() {
    assert_eq!(
        u8_to_bits_le(0b1010_0110),
        [false, true, true, false, false, true, false, true]
    );
    assert_eq!(u8_to_bits_le(0), [false; 8]);
    assert_eq!(u8_to_bits_le(255), [true; 8]);
    assert_eq!(u8_to_bits_le(1)[0], true);
    assert_eq!(u8_to_bits_le(128)[7], true);
}

#[test]
fn bits_pack_into_a_byte() {
    assert_eq!(bits_to_u8_le(&[]), 0);
    assert_eq!(bits_to_u8_le(&[true]), 1);
    assert_eq!(bits_to_u8_le(&[false, true, true]), 6);
    assert_eq!(bits_to_u8_le(&[true; 8]), 255);
    for b in 0..=255u8 {
        assert_eq!(bits_to_u8_le(&u8_to_bits_le(b)), b);
    }
}

#[test]
fn word_gives_its_low_bits() {
    assert_eq!(u32_to_bits_le(0b1011, 4), vec![true, true, false, true]);
    assert_eq!(u32_to_bits_le(0b1011, 2), vec![true, true]);
    assert_eq!(u32_to_bits_le(5, 0), Vec::<bool>::new());
    let all = u32_to_bits_le(0x8000_0001, 32);
    assert_eq!(all.len(), 32);
    assert!(all[0] && all[31]);
    assert!(all[1..31].iter().all(|b| !b));
    // a word has no more than 32 bits to give
    assert_eq!(u32_to_bits_le(u32::MAX, 40), vec![true; 32]);
}

#[test]
fn bits_pack_into_bytes_with_zero_padding() {
    assert_eq!(bits_to_bytes_le(&[]), Vec::<u8>::new());
    assert_eq!(bits_to_bytes_le(&[true, false, true]), vec![5]);
    let mut bits = vec![false; 8];
    bits.push(true);
    assert_eq!(bits_to_bytes_le(&bits), vec![0, 1]);
    let sixteen = [true; 16];
    assert_eq!(bits_to_bytes_le(&sixteen), vec![255, 255]);
}

#[test]
fn bytes_split_into_bits_and_back() {
    let bytes = vec![0x01, 0x80, 0xa5, 0x00, 0xff];
    let bits = bytes_to_bits_le(&bytes);
    assert_eq!(bits.len(), 40);
    assert!(bits[0]);
    assert!(bits[15]);
    assert!(!bits[8]);
    assert_eq!(bits_to_bytes_le(&bits), bytes);
    assert_eq!(bytes_to_bits_le(&[]), Vec::<bool>::new());
}

#[test]
fn bits_read_as_a_word() {
    assert_eq!(bits_to_u32_le(&[]).unwrap(), 0);
    assert_eq!(bits_to_u32_le(&[true, false, true]).unwrap(), 5);
    assert_eq!(bits_to_u32_le(&[true; 32]).unwrap(), u32::MAX);
    for x in [0u32, 1, 2, 1023, 0xdead_beef, u32::MAX] {
        assert_eq!(bits_to_u32_le(&u32_to_bits_le(x, 32)).unwrap(), x);
        assert_eq!(bits_to_u32_le(&u32_to_bits_le(x, 10)).unwrap(), x % 1024);
    }
}

#[test]
fn more_than_32_bits_are_too_large() {
    let err = bits_to_u32_le(&[false; 33]).unwrap_err();
    assert!(err.message().starts_with("Unexpected input size error: "));
    assert!(bits_to_u32_le(&[true; 64]).is_err());
}

#[test]
fn bytes_read_as_a_word() {
    assert_eq!(bytes_to_u32_le(vec![]).unwrap(), 0);
    assert_eq!(bytes_to_u32_le(vec![0x34, 0x12]).unwrap(), 0x1234);
    assert_eq!(bytes_to_u32_le(vec![0x78, 0x56, 0x34, 0x12]).unwrap(), 0x1234_5678);
    assert_eq!(bytes_to_u32_le(vec![0xff; 4]).unwrap(), u32::MAX);
    assert!(bytes_to_u32_le(vec![0; 5]).is_err());
}

#[test]
fn four_bytes_make_an_array() {
    assert_eq!(u32_sized_bytes_from_vec(vec![1, 2, 3, 4]).unwrap(), [1, 2, 3, 4]);
    assert!(u32_sized_bytes_from_vec(vec![1, 2, 3]).is_err());
    assert!(u32_sized_bytes_from_vec(vec![1, 2, 3, 4, 5]).is_err());
}

#[test]
fn limbs_write_back_as_bytes() {
    // 16 bits in limbs of 10: the last limb gives the 6 bits that are left
    assert_eq!(bytes_from_u32_slice(&[0x3ff, 0x3f], 10, 16), vec![0xff, 0xff]);
    assert_eq!(bytes_from_u32_slice(&[0x001, 0x20], 10, 16), vec![0x01, 0x80]);
    assert_eq!(bytes_from_u32_slice(&[], 10, 16), Vec::<u8>::new());
}

#[test]
fn last_limb_is_full_when_the_size_is_a_multiple() {
    // 16 bits in limbs of 8: the last limb gives 8 bits, not none
    assert_eq!(bytes_from_u32_slice(&[0xab, 0xcd], 8, 16), vec![0xab, 0xcd]);
    // 20 bits in limbs of 10
    assert_eq!(bytes_from_u32_slice(&[0x3ff, 0x3ff], 10, 20), vec![0xff, 0xff, 0x0f]);
}

#[test]
fn limbs_write_back_as_base64() {
    assert_eq!(base64_from_u32_slice(&[0x3ff, 0x3f], 10, 16), "//8=");
    assert_eq!(base64_from_u32_slice(&[0xab, 0xcd], 8, 16), base64::encode([0xab, 0xcd]));
    // the text is an encoding, not the bytes themselves
    assert_ne!(
        base64_from_u32_slice(&[0x61, 0x62, 0x63], 8, 24).as_bytes(),
        [0x61u8, 0x62, 0x63]
    );
    assert_eq!(base64_from_u32_slice(&[0x61, 0x62, 0x63], 8, 24), "YWJj");
}
