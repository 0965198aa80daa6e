use light_client::confidence::calculate_confidence;
use light_client::confidence::serialised_confidence;
use light_client::numerals::decimal_string;
use light_client::numerals::parse_block_number;

#[test]
fn confidence_of_zero_samples_is_zero() {
    assert_eq!(calculate_confidence(0), 0);
}

#[test]
fn confidence_strictly_increases_below_cap() {
    for count in 0u32..30 {
        assert!(calculate_confidence(count) < calculate_confidence(count + 1));
    }
}

#[test]
fn confidence_stays_below_full_scale() {
    for count in 0u32..64 {
        assert!(calculate_confidence(count) < 1_000_000_000);
    }
}

#[test]
fn confidence_saturates_from_thirty() {
    assert_eq!(calculate_confidence(30), 999_999_999);
    assert_eq!(calculate_confidence(31), 999_999_999);
    assert_eq!(calculate_confidence(1000), 999_999_999);
}

#[test]
fn confidence_of_eight_samples_exact() {
    // 100 * (1 - 1/256) = 99.609375 percent, scaled by 10^7.
    assert_eq!(calculate_confidence(8), 996_093_750);
}

#[test]
fn confidence_of_one_sample_is_half() {
    assert_eq!(calculate_confidence(1), 500_000_000);
}

#[test]
fn serialised_confidence_packs_block_and_factor() {
    let s = serialised_confidence(100, 996_093_750);
    assert_eq!(s, "430492823350");
}

#[test]
fn serialised_confidence_of_zero_is_zero() {
    assert_eq!(serialised_confidence(0, 0), "0");
}

#[test]
fn serialised_confidence_block_in_high_bits() {
    // block 1, factor 0: exactly 2^32.
    assert_eq!(serialised_confidence(1, 0), "4294967296");
}

#[test]
fn serialised_confidence_needs_wide_arithmetic() {
    // The largest block number shifted by 32 exceeds 64 bits.
    let s = serialised_confidence(u64::MAX, 999_999_999);
    assert_eq!(s, "79228162514264337590248983039");
}

#[test]
fn encoding_round_trip_recovers_block_and_factor() {
    for &(block, count) in &[(0u64, 0u32), (100, 8), (u64::MAX, 30), (12345, 3)] {
        let factor = calculate_confidence(count);
        let s = serialised_confidence(block, factor);
        let encoded: u128 = s.parse().unwrap();
        assert_eq!((encoded >> 32) as u64, block);
        assert_eq!((encoded & 0xFFFF_FFFF) as u64, factor);
    }
}

#[test]
fn decimal_rendering_matches_display() {
    for &n in &[0u128, 1, 9, 10, 99, 100, 12345, u128::MAX] {
        assert_eq!(decimal_string(n), n.to_string());
    }
}

#[test]
fn block_number_parses_hex_with_prefix() {
    assert_eq!(parse_block_number("0x64"), Some(100));
    assert_eq!(parse_block_number("0x0"), Some(0));
    assert_eq!(parse_block_number("0xFFFFFFFFFFFFFFFF"), Some(u64::MAX));
    assert_eq!(parse_block_number("0xdeadBEEF"), Some(0xdead_beef));
}

#[test]
fn block_number_parses_without_prefix() {
    assert_eq!(parse_block_number("64"), Some(100));
}

#[test]
fn block_number_strips_repeated_prefixes() {
    assert_eq!(parse_block_number("0x0x5"), Some(5));
}

#[test]
fn block_number_rejects_empty_and_garbage() {
    assert_eq!(parse_block_number(""), None);
    assert_eq!(parse_block_number("0x"), None);
    assert_eq!(parse_block_number("xyz"), None);
    assert_eq!(parse_block_number("0x12g4"), None);
}

#[test]
fn block_number_rejects_overflow() {
    assert_eq!(parse_block_number("0x10000000000000000"), None);
}
