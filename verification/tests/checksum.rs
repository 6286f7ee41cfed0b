use typenet::checksum::{
    always_folded_cksum, calculate, naive_wrapping_cksum, range_checked_cksum,
    DEFERRED_CARRIES_MAX_BYTES,
};

#[test]
fn empty_input_produces_negative_zero() {
    // Empty input should produce 0xFFFF (one's complement of 0x0000)
    assert_eq!(calculate(&[]), 0xFFFF);
}

#[test]
fn zeros_produce_all_ones() {
    assert_eq!(calculate(&[0u8; 20]), 0xFFFF);
}

#[test]
fn all_ones_produce_zero() {
    assert_eq!(calculate(&[0xFFu8; 20]), 0x0000);
}

#[test]
fn handles_odd_length() {
    // 3 bytes: 0x1234 + 0x5600 = 0x6834, ~0x6834 = 0x97CB
    assert_eq!(calculate(&[0x12, 0x34, 0x56]), 0x97CB);

    // 5 bytes: 0x1234 + 0x5678 + 0xAB00 = 0x113AC, fold: 0x13AD, ~0x13AD = 0xEC52
    assert_eq!(calculate(&[0x12, 0x34, 0x56, 0x78, 0xAB]), 0xEC52);
}

#[test]
fn folds_carry_bits() {
    assert_eq!(calculate(&[0xFF; 4]), 0x0000);
    assert_eq!(calculate(&[0xAA, 0xAA, 0xBB, 0xBB]), 0x9999);
}

#[test]
fn known_ipv4_hdr_without_folding() {
    const HDR: [u8; 20] = [
        0x45, 0x00, 0x00, 0x20, 0x00, 0x01, 0x00, 0x00, 0x40, 0x11, 0x00, 0x00, 0x0A, 0x00, 0x00,
        0x01, 0x0A, 0x00, 0x00, 0x02,
    ];
    assert_eq!(calculate(&HDR), 0x66CA);
}

#[test]
fn known_ipv4_hdr_with_folding() {
    const HDR: [u8; 20] = [
        0x45, 0x00, 0x00, 0x54, 0xAB, 0xCD, 0x00, 0x00, 0x40, 0x06, 0x00, 0x00, 0xC0, 0xA8, 0xFF,
        0x64, 0xC0, 0xA8, 0xFF, 0xC8,
    ];
    assert_eq!(calculate(&HDR), 0x4E58);
}

#[test]
fn roundtrip_produces_zero() {
    const DATA: [u8; 20] = [
        0x45, 0x00, 0x00, 0x3C, 0x1C, 0x46, 0x40, 0x00, 0x40, 0x06, 0xB1, 0xE6, 0xAC, 0x10, 0x0A,
        0x63, 0xAC, 0x10, 0x0A, 0x0C,
    ];
    assert_eq!(calculate(&DATA), 0x0000);
}

#[test]
fn commutative_over_16_bit_word_order() {
    const DATA1: [u8; 8] = [0x12, 0x34, 0x56, 0x78, 0x9A, 0xBC, 0xDE, 0xF0];
    const DATA2: [u8; 8] = [0x9A, 0xBC, 0x12, 0x34, 0xDE, 0xF0, 0x56, 0x78];
    assert_eq!(calculate(&DATA1), calculate(&DATA2));
}

#[test]
fn accumulator_does_not_overflow_on_worst_case_large_input() {
    for num_bytes in DEFERRED_CARRIES_MAX_BYTES - 10..=DEFERRED_CARRIES_MAX_BYTES {
        let data = vec![0xFFu8; num_bytes];
        let expected = if num_bytes & 1 == 1 { 0xFF } else { 0 };

        assert_eq!(expected, naive_wrapping_cksum(&data));
        assert_eq!(expected, range_checked_cksum(&data));
        assert_eq!(expected, always_folded_cksum(&data));
        assert_eq!(expected, calculate(&data));
    }

    for num_bytes in DEFERRED_CARRIES_MAX_BYTES + 1..DEFERRED_CARRIES_MAX_BYTES + 10 {
        let data = vec![0xFFu8; num_bytes];
        let expected = if num_bytes & 1 == 1 { 0xFF } else { 0 };

        assert_ne!(expected, naive_wrapping_cksum(&data));
        assert_eq!(expected, range_checked_cksum(&data));
        assert_eq!(expected, always_folded_cksum(&data));
        assert_eq!(expected, calculate(&data));
    }
}

#[test]
fn all_implementations_agree_on_small_inputs() {
    let data: Vec<u8> = (0..=255u8).chain(0..77).collect();
    for end in 0..data.len() {
        let slice = &data[..end];
        let c = calculate(slice);
        assert_eq!(c, always_folded_cksum(slice));
        assert_eq!(c, range_checked_cksum(slice));
        assert_eq!(c, naive_wrapping_cksum(slice));
    }
}
