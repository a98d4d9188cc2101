use dhchat::wire::{
    encode_envelope, u32_from_be_bytes, u32_to_be_bytes, u64_from_be_bytes, u64_to_be_bytes,
};

#[test]
fn u32_big_endian_known_bytes() {
    assert_eq!(u32_to_be_bytes(0x0102_0304), vec![1, 2, 3, 4]);
    assert_eq!(u32_to_be_bytes(0), vec![0, 0, 0, 0]);
    assert_eq!(u32_to_be_bytes(u32::MAX), vec![0xFF, 0xFF, 0xFF, 0xFF]);
}

#[test]
fn u32_big_endian_round_trip() {
    for &x in &[0u32, 1, 2, 0x8000_0000, 0xDEAD_BEEF, u32::MAX] {
        assert_eq!(u32_from_be_bytes(&u32_to_be_bytes(x)), x);
    }
    assert_eq!(u32_from_be_bytes(&[0, 0, 0, 2]), 2);
}

#[test]
fn u64_big_endian_known_bytes() {
    assert_eq!(
        u64_to_be_bytes(0x0102_0304_0506_0708),
        vec![1, 2, 3, 4, 5, 6, 7, 8]
    );
}

#[test]
fn u64_big_endian_round_trip() {
    for &x in &[0u64, 1, 0xD87F_A3E2_91B4_C7F3, u64::MAX] {
        assert_eq!(u64_from_be_bytes(&u64_to_be_bytes(x)), x);
    }
}

#[test]
fn envelope_frames_length_then_bytes() {
    assert_eq!(encode_envelope(b"abc"), vec![0, 0, 0, 3, b'a', b'b', b'c']);
}

#[test]
fn envelope_zero_length_is_valid() {
    assert_eq!(encode_envelope(b""), vec![0, 0, 0, 0]);
}
