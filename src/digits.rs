use vstd::prelude::*;

verus! {

/// Ten to the power `k`.
pub open spec fn pow10(k: nat) -> nat
    decreases k,
{
    if k == 0 {
        1
    } else {
        10 * pow10((k - 1) as nat)
    }
}

/// The decimal digits of `n`, least significant first. Zero has the single
/// digit 0, so every number has at least one digit.
pub open spec fn decimal_digits(n: nat) -> Seq<nat>
    decreases n,
{
    if n < 10 {
        seq![n]
    } else {
        seq![n % 10].add(decimal_digits(n / 10))
    }
}

/// One digit below 10, one more than `n / 10` from 10 on.
pub proof fn lemma_digits_len_unfold(n: nat)
    ensures
        decimal_digits(n).len() >= 1,
        n < 10 ==> decimal_digits(n).len() == 1,
        n >= 10 ==> decimal_digits(n).len() == 1 + decimal_digits(n / 10).len(),
{
}

/// A number below `10^k` has at most `k` digits.
pub proof fn lemma_digits_len_bound(n: nat, k: nat)
    requires
        n < pow10(k),
        k >= 1,
    ensures
        decimal_digits(n).len() <= k,
    decreases n,
{
    if n >= 10 {
        assert(k >= 2) by {
            if k == 1 {
                reveal_with_fuel(pow10, 2);
            }
        }
        assert(n / 10 < pow10((k - 1) as nat));
        lemma_digits_len_bound(n / 10, (k - 1) as nat);
    }
}

/// Every `u128` has at most 39 decimal digits.
pub proof fn lemma_u128_digits(n: u128)
    ensures
        decimal_digits(n as nat).len() <= 39,
{
    assert(pow10(39) == 1_000_000_000_000_000_000_000_000_000_000_000_000_000nat) by {
        reveal_with_fuel(pow10, 40);
    }
    lemma_digits_len_bound(n as nat, 39);
}

/// The first digit of `n` is `n % 10`; the others are the digits of `n / 10`.
pub proof fn lemma_digits_unfold(n: nat)
    ensures
        decimal_digits(n).len() >= 1,
        decimal_digits(n)[0] == n % 10,
        n < 10 ==> decimal_digits(n).drop_first() == Seq::<nat>::empty(),
        n >= 10 ==> decimal_digits(n).drop_first() == decimal_digits(n / 10),
{
    if n < 10 {
        assert(decimal_digits(n).drop_first() =~= Seq::<nat>::empty());
    } else {
        assert(decimal_digits(n).drop_first() =~= decimal_digits(n / 10));
    }
}

/// Every decimal digit is below 10.
pub proof fn lemma_digits_range(n: nat)
    ensures
        forall|k: int| 0 <= k < decimal_digits(n).len() ==> #[trigger] decimal_digits(n)[k] < 10,
    decreases n,
{
    if n >= 10 {
        lemma_digits_range(n / 10);
        assert forall|k: int| 0 <= k < decimal_digits(n).len() implies #[trigger] decimal_digits(
            n,
        )[k] < 10 by {
            if k > 0 {
                assert(decimal_digits(n)[k] == decimal_digits(n / 10)[k - 1]);
            }
        }
    }
}

/// Two numbers with the same decimal digits are equal.
pub proof fn lemma_digits_injective(n: nat, m: nat)
    requires
        decimal_digits(n) == decimal_digits(m),
    ensures
        n == m,
    decreases n,
{
    lemma_digits_unfold(n);
    lemma_digits_unfold(m);
    lemma_digits_len_unfold(n);
    lemma_digits_len_unfold(m);
    if n >= 10 {
        lemma_digits_injective(n / 10, m / 10);
    }
}

} // verus!
