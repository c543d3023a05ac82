//! Check-digit algorithms (Luhn and Verhoeff) over the decimal digits of an
//! unsigned integer, each behind one common interface.
mod check_digit;
mod digits;
mod luhn;
mod verhoeff;
mod verhoeff_tables;

pub use check_digit::CheckDigitAlgorithm;
pub use digits::{decimal_digits, pow10};
pub use luhn::{
    lemma_luhn_check_digit_completes, lemma_luhn_single_digit, luhn_check_digit, luhn_checksum,
    luhn_sum, luhn_term, LuhnAlgorithm,
};
pub use verhoeff::{
    lemma_verhoeff_check_digit_completes, lemma_verhoeff_detects_substitution,
    lemma_verhoeff_detects_transposition, lemma_verhoeff_zero, verhoeff_check_digit,
    verhoeff_checksum, verhoeff_fold, VerhoeffAlgorithm,
};
pub use verhoeff_tables::{
    d5_inv, d5_mul, perm_at, VERHOEFF_D_TABLE, VERHOEFF_INV_D_TABLE, VERHOEFF_P_TABLE,
};
