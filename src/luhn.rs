use vstd::prelude::*;

use crate::check_digit::CheckDigitAlgorithm;
use crate::digits::{decimal_digits, lemma_digits_len_unfold, lemma_u128_digits};

verus! {

/// What the digit `digit` adds to the Luhn sum at the 1-based `position`
/// (counted from the right): digits at even positions are doubled, and a
/// doubled value above 9 loses 9 (the sum of its own two digits).
pub open spec fn luhn_term(digit: nat, position: nat) -> nat {
    if position % 2 == 0 {
        if 2 * digit > 9 {
            (2 * digit - 9) as nat
        } else {
            2 * digit
        }
    } else {
        digit
    }
}

/// The Luhn sum of the digits of `n`, its rightmost digit standing at
/// `position` and each further digit to the left one position higher.
pub open spec fn luhn_sum(n: nat, position: nat) -> nat
    decreases n,
{
    if n < 10 {
        luhn_term(n, position)
    } else {
        luhn_term(n % 10, position) + luhn_sum(n / 10, position + 1)
    }
}

/// The Luhn checksum of `n`, whose rightmost digit is its check digit.
pub open spec fn luhn_checksum(n: nat) -> nat {
    luhn_sum(n, 1) % 10
}

/// The Luhn check digit of `n`: `n` is scanned with a zero appended in the
/// check digit's place, and the sum is negated modulo 10.
pub open spec fn luhn_check_digit(n: nat) -> nat {
    (luhn_sum(n * 10, 1) * 9) % 10
}

/// Each digit adds at most 9 to the Luhn sum.
proof fn lemma_luhn_sum_bound(n: nat, position: nat)
    ensures
        luhn_sum(n, position) <= 9 * decimal_digits(n).len(),
    decreases n,
{
    lemma_digits_len_unfold(n);
    if n >= 10 {
        lemma_luhn_sum_bound(n / 10, position + 1);
    }
}

/// Appending the computed Luhn check digit to any number gives a number whose
/// Luhn checksum is zero.
pub proof fn lemma_luhn_check_digit_completes(n: nat)
    ensures
        luhn_checksum(n * 10 + luhn_check_digit(n)) == 0,
{
    let s = luhn_sum(n, 2);
    assert(luhn_sum(n * 10, 1) == s) by {
        assert((n * 10) % 10 == 0);
        if n > 0 {
            assert((n * 10) / 10 == n);
        }
    }
    let d = luhn_check_digit(n);
    let m = n * 10 + d;
    assert(m % 10 == d && m / 10 == n);
    if n == 0 {
        assert(d == 0);
    } else {
        assert(luhn_sum(m, 1) == d + s);
        assert((d + s) % 10 == 0) by (nonlinear_arith)
            requires
                d == (s * 9) % 10,
        ;
    }
}

/// A single digit is scanned alone, at an odd position: its checksum is itself.
pub proof fn lemma_luhn_single_digit(d: nat)
    requires
        d < 10,
    ensures
        luhn_checksum(d) == d,
{
}

/// Luhn check digit algorithm.
///
/// It detects any single-digit error and almost every transposition of two
/// adjacent digits; the transposition of 09 and 90 is the one it misses.
pub struct LuhnAlgorithm {}

impl LuhnAlgorithm {
    /// The Luhn sum of the digits of `num`, its rightmost digit at position 1.
    pub fn digit_sum(num: u128) -> (r: u32)
        ensures
            r == luhn_sum(num as nat, 1),
            r <= 9 * decimal_digits(num as nat).len(),
            r <= 351,
    {
        proof {
            lemma_u128_digits(num);
            lemma_luhn_sum_bound(num as nat, 1);
        }
        let mut rest = num;
        let mut sum: u32 = 0;
        let mut i: u8 = 0;
        // Scan the digits from right to left
        loop
            invariant_except_break
                sum + luhn_sum(rest as nat, (i + 1) as nat) == luhn_sum(num as nat, 1),
                i + decimal_digits(rest as nat).len() == decimal_digits(num as nat).len(),
            invariant
                decimal_digits(num as nat).len() <= 39,
                luhn_sum(num as nat, 1) <= 9 * decimal_digits(num as nat).len(),
            ensures
                sum == luhn_sum(num as nat, 1),
            decreases rest,
        {
            proof {
                lemma_digits_len_unfold(rest as nat);
            }
            let next = rest / 10;
            i += 1;
            let digit = rest - next * 10;
            if i % 2 == 0 {
                // Digits at even positions are doubled, less 9 above 9
                let mut doubled = digit * 2;
                if doubled > 9 {
                    doubled = doubled - 9;
                }
                sum += doubled as u32;
            } else {
                // Digits at odd positions count as they are
                sum += digit as u32;
            }
            if next == 0 {
                break;
            }
            rest = next;
        }
        sum
    }
}

impl CheckDigitAlgorithm for LuhnAlgorithm {
    open spec fn spec_checksum(&self, num: nat) -> nat {
        luhn_checksum(num)
    }

    open spec fn spec_check_digit(&self, num: nat) -> nat {
        luhn_check_digit(num)
    }

    /// Computes the Luhn checksum for the provided number.
    fn checksum(&self, num: u64) -> (r: u8) {
        (LuhnAlgorithm::digit_sum(num as u128) % 10) as u8
    }

    /// Computes the Luhn check digit for the provided number.
    ///
    /// The number is widened before a zero digit is appended, so every `u64`
    /// is accepted.
    fn calculate_check_digit(&self, num: u64) -> (r: u8) {
        (LuhnAlgorithm::digit_sum(num as u128 * 10) * 9 % 10) as u8
    }

    /// Verifies the check digit using the Luhn algorithm.
    fn is_valid(&self, num: u64) -> (r: bool) {
        self.checksum(num) == 0
    }
}

} // verus!
