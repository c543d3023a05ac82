use vstd::prelude::*;

verus! {

/// The multiplication table of the dihedral group D5: elements 0 to 4 are
/// the rotations, 5 to 9 the reflections, and 0 is the identity.
pub const VERHOEFF_D_TABLE: [[u8; 10]; 10] = [
    [0, 1, 2, 3, 4, 5, 6, 7, 8, 9],
    [1, 2, 3, 4, 0, 6, 7, 8, 9, 5],
    [2, 3, 4, 0, 1, 7, 8, 9, 5, 6],
    [3, 4, 0, 1, 2, 8, 9, 5, 6, 7],
    [4, 0, 1, 2, 3, 9, 5, 6, 7, 8],
    [5, 9, 8, 7, 6, 0, 4, 3, 2, 1],
    [6, 5, 9, 8, 7, 1, 0, 4, 3, 2],
    [7, 6, 5, 9, 8, 2, 1, 0, 4, 3],
    [8, 7, 6, 5, 9, 3, 2, 1, 0, 4],
    [9, 8, 7, 6, 5, 4, 3, 2, 1, 0],
];

/// The inverse of each element of D5 under `VERHOEFF_D_TABLE`.
pub const VERHOEFF_INV_D_TABLE: [u8; 10] = [0, 4, 3, 2, 1, 5, 6, 7, 8, 9];

/// The digit permutations: row `i` is the permutation of row 1 applied `i` times.
pub const VERHOEFF_P_TABLE: [[u8; 10]; 8] = [
    [0, 1, 2, 3, 4, 5, 6, 7, 8, 9],
    [1, 5, 7, 6, 2, 8, 3, 0, 9, 4],
    [5, 8, 0, 3, 7, 9, 6, 1, 4, 2],
    [8, 9, 1, 6, 0, 4, 3, 5, 2, 7],
    [9, 4, 5, 3, 1, 2, 6, 8, 7, 0],
    [4, 2, 8, 6, 5, 7, 3, 9, 0, 1],
    [2, 7, 9, 3, 8, 0, 6, 4, 1, 5],
    [7, 0, 4, 6, 9, 1, 3, 2, 5, 8],
];

/// The product of `x` and `y` in D5, read from the multiplication table.
pub open spec fn d5_mul(x: nat, y: nat) -> nat {
    VERHOEFF_D_TABLE@[x as int]@[y as int] as nat
}

/// The inverse of `x` in D5, read from the inverse table.
pub open spec fn d5_inv(x: nat) -> nat {
    VERHOEFF_INV_D_TABLE@[x as int] as nat
}

/// The image of `digit` under the permutation for the 0-based `position`.
pub open spec fn perm_at(position: nat, digit: nat) -> nat {
    VERHOEFF_P_TABLE@[(position % 8) as int]@[digit as int] as nat
}

/// `k` reduced into 0..5, for `k` in -5..10.
spec fn wrap5(k: int) -> int {
    if k >= 5 {
        k - 5
    } else if k < 0 {
        k + 5
    } else {
        k
    }
}

/// D5 as arithmetic: a rotation `r` is `r`, a reflection `s r` is `5 + r`.
spec fn d5_formula(x: int, y: int) -> int {
    if x < 5 {
        if y < 5 {
            wrap5(x + y)
        } else {
            5 + wrap5(x + y - 5)
        }
    } else {
        if y < 5 {
            5 + wrap5(x - 5 - y)
        } else {
            wrap5(x - y)
        }
    }
}

/// The multiplication table agrees with the arithmetic description of D5.
proof fn lemma_table_formula(x: nat, y: nat)
    requires
        x < 10,
        y < 10,
    ensures
        d5_mul(x, y) == d5_formula(x as int, y as int),
{
}

/// Products and inverses stay among the ten elements; 0 is a left identity
/// and the inverse table inverts.
pub proof fn lemma_d5_range(x: nat, y: nat)
    requires
        x < 10,
        y < 10,
    ensures
        d5_mul(x, y) < 10,
        d5_mul(0, y) == y,
        d5_inv(x) < 10,
        d5_mul(d5_inv(x), x) == 0,
{
}

/// Permuted digits stay digits; the permutation at positions 0, 8, 16, ...
/// is the identity.
pub proof fn lemma_perm_range(position: nat, digit: nat)
    requires
        digit < 10,
    ensures
        perm_at(position, digit) < 10,
        position % 8 == 0 ==> perm_at(position, digit) == digit,
{
}

/// Multiplication in D5 is associative.
pub proof fn lemma_d5_assoc(x: nat, y: nat, z: nat)
    requires
        x < 10,
        y < 10,
        z < 10,
    ensures
        d5_mul(d5_mul(x, y), z) == d5_mul(x, d5_mul(y, z)),
{
    lemma_table_formula(x, y);
    lemma_table_formula(y, z);
    lemma_d5_range(x, y);
    lemma_d5_range(y, z);
    lemma_table_formula(d5_mul(x, y), z);
    lemma_table_formula(x, d5_mul(y, z));
}

/// Multiplication in D5 cancels on either side.
pub proof fn lemma_d5_cancel(c: nat, x: nat, y: nat)
    requires
        c < 10,
        x < 10,
        y < 10,
        x != y,
    ensures
        d5_mul(c, x) != d5_mul(c, y),
        d5_mul(x, c) != d5_mul(y, c),
{
    lemma_table_formula(c, x);
    lemma_table_formula(c, y);
    lemma_table_formula(x, c);
    lemma_table_formula(y, c);
}

/// Each row of the permutation table is one to one.
pub proof fn lemma_perm_injective(position: nat, a: nat, b: nat)
    requires
        a < 10,
        b < 10,
        a != b,
    ensures
        perm_at(position, a) != perm_at(position, b),
{
}

/// Each row of the permutation table is row 1 applied to the row before it,
/// cyclically.
proof fn lemma_perm_next(position: nat, digit: nat)
    requires
        digit < 10,
    ensures
        perm_at(position + 1, digit) == perm_at(1, perm_at(position, digit)),
{
}

/// Row 1 of the permutation table separates every pair of distinct elements:
/// `u * p(v)` and `v * p(u)` differ.
proof fn lemma_perm_separates(u: nat, v: nat)
    requires
        u < 10,
        v < 10,
        u != v,
    ensures
        d5_mul(u, perm_at(1, v)) != d5_mul(v, perm_at(1, u)),
{
}

/// Two distinct adjacent digits give different products in either order.
pub proof fn lemma_perm_transposition(position: nat, a: nat, b: nat)
    requires
        a < 10,
        b < 10,
        a != b,
    ensures
        d5_mul(perm_at(position, a), perm_at(position + 1, b)) != d5_mul(
            perm_at(position, b),
            perm_at(position + 1, a),
        ),
{
    lemma_perm_next(position, a);
    lemma_perm_next(position, b);
    lemma_perm_injective(position, a, b);
    lemma_perm_range(position, a);
    lemma_perm_range(position, b);
    lemma_perm_separates(perm_at(position, a), perm_at(position, b));
}

} // verus!
