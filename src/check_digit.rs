use vstd::prelude::*;

verus! {

/// A check-digit scheme: a checksum over the decimal digits of a number, the
/// digit that completes a number, and the validity test built on the two.
pub trait CheckDigitAlgorithm {
    /// The checksum of `num`, read with its check digit in the rightmost place.
    spec fn spec_checksum(&self, num: nat) -> nat;

    /// The check digit that, appended to the right of `num`, makes it valid.
    spec fn spec_check_digit(&self, num: nat) -> nat;

    /// Computes the checksum for the provided number.
    fn checksum(&self, num: u64) -> (r: u8)
        ensures
            r as nat == self.spec_checksum(num as nat),
            r < 10,
    ;

    /// Computes the check digit for the provided number.
    fn calculate_check_digit(&self, num: u64) -> (r: u8)
        ensures
            r as nat == self.spec_check_digit(num as nat),
            r < 10,
    ;

    /// Tests whether the provided number, suffixed with its check digit, is
    /// consistent: its checksum is zero.
    fn is_valid(&self, num: u64) -> (r: bool)
        ensures
            r == (self.spec_checksum(num as nat) == 0),
    ;
}

} // verus!
