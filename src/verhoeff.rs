use vstd::prelude::*;

use crate::check_digit::CheckDigitAlgorithm;
use crate::digits::{
    decimal_digits, lemma_digits_injective, lemma_digits_len_unfold, lemma_digits_range,
    lemma_digits_unfold, lemma_u128_digits,
};
use crate::verhoeff_tables::{
    d5_inv, d5_mul, lemma_d5_assoc, lemma_d5_cancel, lemma_d5_range, lemma_perm_injective,
    lemma_perm_range, lemma_perm_transposition, perm_at, VERHOEFF_D_TABLE, VERHOEFF_INV_D_TABLE,
    VERHOEFF_P_TABLE,
};

verus! {

/// The Verhoeff accumulator after scanning `digits` (least significant first)
/// from the 0-based `position` on, starting from the accumulator `c`: each
/// digit is permuted by its position and multiplied onto the accumulator.
pub open spec fn verhoeff_fold(digits: Seq<nat>, position: nat, c: nat) -> nat
    decreases digits.len(),
{
    if digits.len() == 0 {
        c
    } else {
        verhoeff_fold(digits.drop_first(), position + 1, d5_mul(c, perm_at(position, digits[0])))
    }
}

/// The Verhoeff checksum of `n`, whose rightmost digit (position 0) is its
/// check digit.
pub open spec fn verhoeff_checksum(n: nat) -> nat {
    verhoeff_fold(decimal_digits(n), 0, 0)
}

/// The Verhoeff check digit of `n`: `n` is scanned with a zero appended in the
/// check digit's place, and the accumulator is inverted.
pub open spec fn verhoeff_check_digit(n: nat) -> nat {
    d5_inv(verhoeff_checksum(n * 10))
}

/// Every element of `s` is a decimal digit.
spec fn all_digits(s: Seq<nat>) -> bool {
    forall|k: int| 0 <= k < s.len() ==> #[trigger] s[k] < 10
}

/// The accumulator stays among the ten elements of D5.
proof fn lemma_fold_range(s: Seq<nat>, position: nat, c: nat)
    requires
        all_digits(s),
        c < 10,
    ensures
        verhoeff_fold(s, position, c) < 10,
    decreases s.len(),
{
    if s.len() > 0 {
        lemma_perm_range(position, s[0]);
        lemma_d5_range(c, perm_at(position, s[0]));
        lemma_fold_range(s.drop_first(), position + 1, d5_mul(c, perm_at(position, s[0])));
    }
}

/// Starting from `c` is multiplying the result of starting from the identity by `c`.
proof fn lemma_fold_start(s: Seq<nat>, position: nat, c: nat)
    requires
        all_digits(s),
        c < 10,
    ensures
        verhoeff_fold(s, position, c) == d5_mul(c, verhoeff_fold(s, position, 0)),
    decreases s.len(),
{
    if s.len() == 0 {
        lemma_d5_range(0, c);
        assert(d5_mul(c, 0) == c);
    } else {
        let q = perm_at(position, s[0]);
        let rest = s.drop_first();
        lemma_perm_range(position, s[0]);
        lemma_d5_range(c, q);
        lemma_d5_range(0, q);
        lemma_fold_start(rest, position + 1, d5_mul(c, q));
        lemma_fold_start(rest, position + 1, q);
        lemma_fold_range(rest, position + 1, 0);
        lemma_d5_assoc(c, q, verhoeff_fold(rest, position + 1, 0));
    }
}

/// Different starting accumulators give different results.
proof fn lemma_fold_injective(s: Seq<nat>, position: nat, c1: nat, c2: nat)
    requires
        all_digits(s),
        c1 < 10,
        c2 < 10,
        c1 != c2,
    ensures
        verhoeff_fold(s, position, c1) != verhoeff_fold(s, position, c2),
    decreases s.len(),
{
    if s.len() > 0 {
        let q = perm_at(position, s[0]);
        lemma_perm_range(position, s[0]);
        lemma_d5_cancel(q, c1, c2);
        lemma_d5_range(c1, q);
        lemma_d5_range(c2, q);
        lemma_fold_injective(s.drop_first(), position + 1, d5_mul(c1, q), d5_mul(c2, q));
    }
}

/// Sequences that differ in exactly one place scan to different accumulators.
proof fn lemma_fold_substitution(s: Seq<nat>, t: Seq<nat>, position: nat, c: nat, j: int)
    requires
        all_digits(s),
        all_digits(t),
        c < 10,
        s.len() == t.len(),
        0 <= j < s.len(),
        forall|k: int| 0 <= k < s.len() && k != j ==> s[k] == t[k],
        s[j] != t[j],
    ensures
        verhoeff_fold(s, position, c) != verhoeff_fold(t, position, c),
    decreases j,
{
    lemma_perm_range(position, s[0]);
    lemma_perm_range(position, t[0]);
    let c1 = d5_mul(c, perm_at(position, s[0]));
    let c2 = d5_mul(c, perm_at(position, t[0]));
    lemma_d5_range(c, perm_at(position, s[0]));
    lemma_d5_range(c, perm_at(position, t[0]));
    if j == 0 {
        lemma_perm_injective(position, s[0], t[0]);
        lemma_d5_cancel(c, perm_at(position, s[0]), perm_at(position, t[0]));
        assert(s.drop_first() =~= t.drop_first());
        lemma_fold_injective(s.drop_first(), position + 1, c1, c2);
    } else {
        lemma_fold_substitution(s.drop_first(), t.drop_first(), position + 1, c1, j - 1);
    }
}

/// Swapping two adjacent, different elements changes the accumulator.
proof fn lemma_fold_transposition(s: Seq<nat>, t: Seq<nat>, position: nat, c: nat, j: int)
    requires
        all_digits(s),
        all_digits(t),
        c < 10,
        s.len() == t.len(),
        0 <= j,
        j + 1 < s.len(),
        forall|k: int| 0 <= k < s.len() && k != j && k != j + 1 ==> s[k] == t[k],
        t[j] == s[j + 1],
        t[j + 1] == s[j],
        s[j] != s[j + 1],
    ensures
        verhoeff_fold(s, position, c) != verhoeff_fold(t, position, c),
    decreases j,
{
    lemma_perm_range(position, s[0]);
    lemma_perm_range(position, t[0]);
    let c1 = d5_mul(c, perm_at(position, s[0]));
    let c2 = d5_mul(c, perm_at(position, t[0]));
    lemma_d5_range(c, perm_at(position, s[0]));
    lemma_d5_range(c, perm_at(position, t[0]));
    if j == 0 {
        let a = s[0];
        let b = s[1];
        let pa = perm_at(position, a);
        let pb = perm_at(position, b);
        let qa = perm_at(position + 1, a);
        let qb = perm_at(position + 1, b);
        lemma_perm_range(position + 1, a);
        lemma_perm_range(position + 1, b);
        lemma_d5_assoc(c, pa, qb);
        lemma_d5_assoc(c, pb, qa);
        lemma_d5_range(pa, qb);
        lemma_d5_range(pb, qa);
        lemma_perm_transposition(position, a, b);
        lemma_d5_cancel(c, d5_mul(pa, qb), d5_mul(pb, qa));
        let e1 = d5_mul(c1, qb);
        let e2 = d5_mul(c2, qa);
        lemma_d5_range(c1, qb);
        lemma_d5_range(c2, qa);
        let s2 = s.drop_first().drop_first();
        let t2 = t.drop_first().drop_first();
        assert(s2 =~= t2);
        assert(s.drop_first()[0] == b && t.drop_first()[0] == a);
        assert(verhoeff_fold(s, position, c) == verhoeff_fold(s.drop_first(), position + 1, c1));
        assert(verhoeff_fold(s.drop_first(), position + 1, c1) == verhoeff_fold(s2, position + 2, e1));
        assert(verhoeff_fold(t, position, c) == verhoeff_fold(t.drop_first(), position + 1, c2));
        assert(verhoeff_fold(t.drop_first(), position + 1, c2) == verhoeff_fold(t2, position + 2, e2));
        lemma_fold_injective(s2, position + 2, e1, e2);
    } else {
        lemma_fold_transposition(s.drop_first(), t.drop_first(), position + 1, c1, j - 1);
    }
}

/// Appending the computed Verhoeff check digit to any number gives a number
/// whose Verhoeff checksum is zero.
pub proof fn lemma_verhoeff_check_digit_completes(n: nat)
    ensures
        verhoeff_checksum(n * 10 + verhoeff_check_digit(n)) == 0,
{
    let base = n * 10;
    let c = verhoeff_checksum(base);
    let k = verhoeff_check_digit(n);
    let m = base + k;
    lemma_digits_range(base);
    lemma_fold_range(decimal_digits(base), 0, 0);
    lemma_d5_range(c, 0);
    assert(m % 10 == k && m / 10 == n && base % 10 == 0);
    lemma_digits_unfold(base);
    lemma_digits_unfold(m);
    lemma_perm_range(0, 0);
    lemma_perm_range(0, k);
    lemma_d5_range(0, 0);
    lemma_d5_range(0, k);
    if n == 0 {
        lemma_verhoeff_zero();
        assert(k == 0);
    } else {
        assert(base / 10 == n);
        let s = decimal_digits(n);
        lemma_digits_range(n);
        assert(verhoeff_checksum(m) == verhoeff_fold(s, 1, k));
        assert(c == verhoeff_fold(s, 1, 0));
        lemma_fold_start(s, 1, k);
    }
}

/// Zero is scanned as the single digit 0, and is valid.
pub proof fn lemma_verhoeff_zero()
    ensures
        verhoeff_checksum(0) == 0,
{
    lemma_digits_unfold(0);
    lemma_perm_range(0, 0);
    lemma_d5_range(0, 0);
    assert(verhoeff_fold(Seq::<nat>::empty(), 1, 0) == 0);
}

/// Changing one digit of a number, without changing how many digits it has,
/// changes its Verhoeff checksum: a valid number never stays valid.
pub proof fn lemma_verhoeff_detects_substitution(n: nat, m: nat, j: int)
    requires
        decimal_digits(n).len() == decimal_digits(m).len(),
        0 <= j < decimal_digits(n).len(),
        forall|k: int|
            0 <= k < decimal_digits(n).len() && k != j ==> decimal_digits(n)[k] == decimal_digits(
                m,
            )[k],
        n != m,
    ensures
        verhoeff_checksum(n) != verhoeff_checksum(m),
        verhoeff_checksum(n) == 0 ==> verhoeff_checksum(m) != 0,
{
    let s = decimal_digits(n);
    let t = decimal_digits(m);
    if s[j] == t[j] {
        assert(s =~= t);
        lemma_digits_injective(n, m);
    }
    lemma_digits_range(n);
    lemma_digits_range(m);
    lemma_fold_substitution(s, t, 0, 0, j);
}

/// Swapping two adjacent, different digits of a number, without changing how
/// many digits it has, changes its Verhoeff checksum: a valid number never
/// stays valid.
pub proof fn lemma_verhoeff_detects_transposition(n: nat, m: nat, j: int)
    requires
        decimal_digits(n).len() == decimal_digits(m).len(),
        0 <= j,
        j + 1 < decimal_digits(n).len(),
        decimal_digits(m)[j] == decimal_digits(n)[j + 1],
        decimal_digits(m)[j + 1] == decimal_digits(n)[j],
        forall|k: int|
            0 <= k < decimal_digits(n).len() && k != j && k != j + 1 ==> decimal_digits(n)[k]
                == decimal_digits(m)[k],
        n != m,
    ensures
        verhoeff_checksum(n) != verhoeff_checksum(m),
        verhoeff_checksum(n) == 0 ==> verhoeff_checksum(m) != 0,
{
    let s = decimal_digits(n);
    let t = decimal_digits(m);
    if s[j] == s[j + 1] {
        assert(s =~= t);
        lemma_digits_injective(n, m);
    }
    lemma_digits_range(n);
    lemma_digits_range(m);
    lemma_fold_transposition(s, t, 0, 0, j);
}

/// Verhoeff check digit algorithm.
///
/// It detects every single-digit error and every transposition of two
/// adjacent digits.
pub struct VerhoeffAlgorithm {}

impl VerhoeffAlgorithm {
    /// The Verhoeff accumulator after scanning every digit of `num` from the
    /// right, its rightmost digit at position 0.
    pub fn scan(num: u128) -> (r: u8)
        ensures
            r == verhoeff_checksum(num as nat),
            r < 10,
    {
        proof {
            lemma_u128_digits(num);
            lemma_digits_range(num as nat);
            lemma_fold_range(decimal_digits(num as nat), 0, 0);
        }
        let mut rest = num;
        let mut i: u8 = 0;
        let mut c: u8 = 0;
        loop
            invariant_except_break
                verhoeff_fold(decimal_digits(rest as nat), i as nat, c as nat) == verhoeff_checksum(
                    num as nat,
                ),
                i + decimal_digits(rest as nat).len() == decimal_digits(num as nat).len(),
                c < 10,
            invariant
                decimal_digits(num as nat).len() <= 39,
                verhoeff_checksum(num as nat) < 10,
            ensures
                c == verhoeff_checksum(num as nat),
            decreases rest,
        {
            proof {
                lemma_digits_unfold(rest as nat);
                lemma_digits_len_unfold(rest as nat);
            }
            let ghost c0 = c;
            let ghost i0 = i;
            let next = rest / 10;
            let digit = rest - next * 10;
            proof {
                lemma_perm_range(i as nat, digit as nat);
                lemma_d5_range(c as nat, perm_at(i as nat, digit as nat));
            }
            c = VERHOEFF_D_TABLE[c as usize][VERHOEFF_P_TABLE[(i % 8) as usize][digit as usize] as usize];
            i += 1;
            proof {
                let tail = decimal_digits(rest as nat).drop_first();
                assert(verhoeff_fold(decimal_digits(rest as nat), i0 as nat, c0 as nat)
                    == verhoeff_fold(tail, i as nat, c as nat));
                if next == 0 {
                    assert(verhoeff_fold(tail, i as nat, c as nat) == c);
                }
            }
            if next == 0 {
                break;
            }
            rest = next;
        }
        c
    }
}

impl CheckDigitAlgorithm for VerhoeffAlgorithm {
    open spec fn spec_checksum(&self, num: nat) -> nat {
        verhoeff_checksum(num)
    }

    open spec fn spec_check_digit(&self, num: nat) -> nat {
        verhoeff_check_digit(num)
    }

    /// Computes the Verhoeff checksum for the provided number.
    fn checksum(&self, num: u64) -> (r: u8) {
        VerhoeffAlgorithm::scan(num as u128)
    }

    /// Computes the Verhoeff check digit for the provided number.
    ///
    /// The number is widened before a zero digit is appended, so every `u64`
    /// is accepted.
    fn calculate_check_digit(&self, num: u64) -> (r: u8) {
        let c = VerhoeffAlgorithm::scan(num as u128 * 10);
        proof {
            lemma_d5_range(c as nat, 0);
        }
        VERHOEFF_INV_D_TABLE[c as usize]
    }

    /// Uses the Verhoeff checksum formula for error detection.
    fn is_valid(&self, num: u64) -> (r: bool) {
        self.checksum(num) == 0
    }
}

} // verus!
