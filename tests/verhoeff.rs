use checksum::{CheckDigitAlgorithm, VerhoeffAlgorithm};

fn digits_of(mut n: u64) -> Vec<u64> {
    let mut ds = Vec::new();
    loop {
        ds.push(n % 10);
        n /= 10;
        if n == 0 {
            return ds;
        }
    }
}

fn number_of(ds: &[u64]) -> u64 {
    ds.iter().rev().fold(0, |acc, d| acc * 10 + d)
}

#[test]
fn verhoeff_known_check_digit() {
    let algo = VerhoeffAlgorithm {};
    assert_eq!(algo.calculate_check_digit(236), 3);
    assert_eq!(algo.calculate_check_digit(12345), 1);
}

#[test]
fn verhoeff_known_number_is_valid() {
    let algo = VerhoeffAlgorithm {};
    assert!(algo.is_valid(2363));
    assert_eq!(algo.checksum(2363), 0);
}

#[test]
fn verhoeff_zero() {
    let algo = VerhoeffAlgorithm {};
    assert_eq!(algo.checksum(0), 0);
    assert_eq!(algo.calculate_check_digit(0), 0);
    assert!(algo.is_valid(0));
}

#[test]
fn verhoeff_scan_values() {
    assert_eq!(VerhoeffAlgorithm::scan(2363), 0);
    assert_eq!(VerhoeffAlgorithm::scan(2360), 2);
    assert_eq!(VerhoeffAlgorithm::scan(u128::MAX), 5);
}

#[test]
fn verhoeff_largest_input() {
    let algo = VerhoeffAlgorithm {};
    assert_eq!(algo.checksum(u64::MAX), 3);
    assert_eq!(algo.calculate_check_digit(u64::MAX), 3);
}

#[test]
fn verhoeff_appended_check_digit_completes() {
    let algo = VerhoeffAlgorithm {};
    let samples: [u64; 7] = [0, 1, 9, 236, 12345, 123456789012345, u64::MAX / 10 - 1];
    for n in samples {
        let d = algo.calculate_check_digit(n);
        assert!(d < 10);
        assert_eq!(algo.checksum(n * 10 + d as u64), 0);
    }
    for n in 0..2000u64 {
        let d = algo.calculate_check_digit(n);
        assert!(algo.is_valid(n * 10 + d as u64));
    }
}

#[test]
fn verhoeff_detects_single_digit_substitutions() {
    let algo = VerhoeffAlgorithm {};
    for base in [236u64, 12345, 907, 1000, 84736251] {
        let n = base * 10 + algo.calculate_check_digit(base) as u64;
        assert!(algo.is_valid(n));
        let ds = digits_of(n);
        for j in 0..ds.len() {
            for d in 0..10u64 {
                if d == ds[j] || (j + 1 == ds.len() && d == 0) {
                    continue;
                }
                let mut altered = ds.clone();
                altered[j] = d;
                assert!(!algo.is_valid(number_of(&altered)));
            }
        }
    }
}

#[test]
fn verhoeff_detects_adjacent_transpositions() {
    let algo = VerhoeffAlgorithm {};
    for base in [236u64, 12345, 907, 1000, 84736251] {
        let n = base * 10 + algo.calculate_check_digit(base) as u64;
        let ds = digits_of(n);
        for j in 0..ds.len() - 1 {
            if ds[j] == ds[j + 1] || (j + 2 == ds.len() && ds[j] == 0) {
                continue;
            }
            let mut swapped = ds.clone();
            swapped.swap(j, j + 1);
            assert!(!algo.is_valid(number_of(&swapped)));
        }
    }
}

#[test]
fn verhoeff_leading_digit_dropped_can_stay_valid() {
    let algo = VerhoeffAlgorithm {};
    assert!(algo.is_valid(70));
    assert!(algo.is_valid(0));
}

#[test]
fn verhoeff_is_valid_agrees_with_checksum() {
    let algo = VerhoeffAlgorithm {};
    for n in 0..5000u64 {
        assert_eq!(algo.is_valid(n), algo.checksum(n) == 0);
    }
}
