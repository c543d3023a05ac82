use checksum::{CheckDigitAlgorithm, LuhnAlgorithm};

#[test]
fn luhn_known_account_number_is_valid() {
    let algo = LuhnAlgorithm {};
    assert_eq!(algo.checksum(79927398713), 0);
    assert!(algo.is_valid(79927398713));
}

#[test]
fn luhn_known_check_digit() {
    let algo = LuhnAlgorithm {};
    assert_eq!(algo.calculate_check_digit(7992739871), 3);
    assert_eq!(algo.calculate_check_digit(12345), 5);
}

#[test]
fn luhn_corrupted_number_is_invalid() {
    let algo = LuhnAlgorithm {};
    assert_ne!(algo.checksum(79927398710), 0);
    assert!(!algo.is_valid(79927398710));
}

#[test]
fn luhn_single_digit_checksum_is_the_digit() {
    let algo = LuhnAlgorithm {};
    for d in 0..10u64 {
        assert_eq!(algo.checksum(d), d as u8);
    }
}

#[test]
fn luhn_digit_sum_values() {
    assert_eq!(LuhnAlgorithm::digit_sum(79927398713), 70);
    assert_eq!(LuhnAlgorithm::digit_sum(0), 0);
    assert_eq!(LuhnAlgorithm::digit_sum(u64::MAX as u128), 94);
    assert_eq!(LuhnAlgorithm::digit_sum(u128::MAX), 185);
}

#[test]
fn luhn_appended_check_digit_completes() {
    let algo = LuhnAlgorithm {};
    let samples: [u64; 8] = [0, 1, 9, 10, 236, 7992739871, 123456789012345, u64::MAX / 10 - 1];
    for n in samples {
        let d = algo.calculate_check_digit(n);
        assert!(d < 10);
        assert_eq!(algo.checksum(n * 10 + d as u64), 0);
    }
    for n in 0..2000u64 {
        let d = algo.calculate_check_digit(n);
        assert!(algo.is_valid(n * 10 + d as u64));
    }
}

#[test]
fn luhn_largest_input() {
    let algo = LuhnAlgorithm {};
    assert_eq!(algo.checksum(u64::MAX), 4);
    assert_eq!(algo.calculate_check_digit(u64::MAX), 3);
}

#[test]
fn luhn_misses_09_90_transposition() {
    let algo = LuhnAlgorithm {};
    assert!(algo.is_valid(1099));
    assert!(algo.is_valid(1909));
}

#[test]
fn luhn_is_valid_agrees_with_checksum() {
    let algo = LuhnAlgorithm {};
    for n in 0..5000u64 {
        assert_eq!(algo.is_valid(n), algo.checksum(n) == 0);
    }
}
