//! Fixed-width numbers as operands of a CIOS Montgomery multiplication.
use vstd::prelude::*;
use modmath_cios::CiosRowOps;
use crate::fixed_width::FixedWidthBigUint;

verus! {

impl CiosRowOps for FixedWidthBigUint {
    type Word = u64;

    /// The declared width. It never changes on its own.
    fn word_count(&self) -> (r: usize)
        ensures
            r == self@.n_limbs,
    {
        self.n_limbs
    }

    /// The word at position `i`, which is zero past the last one.
    fn word(&self, i: usize) -> (r: u64)
        ensures
            r == self@.word(i as nat),
    {
        self.inner.limb(i)
    }

    /// Adds `scalar * multiplicand + carry_in` to the accumulator, over the width of the
    /// multiplicand, and returns the carry out of that width.
    fn mul_acc_row(scalar: u64, multiplicand: &Self, acc: &mut Self, carry_in: u64) -> (carry: u64)
        ensures
            final(acc)@ == old(acc)@.after_row(scalar, multiplicand@, carry_in),
            carry == old(acc)@.row_carry(scalar, multiplicand@, carry_in),
            final(acc)@.n_limbs == old(acc)@.n_limbs,
    {
        acc.inner.add_row(scalar, &multiplicand.inner, multiplicand.n_limbs, carry_in)
    }

    /// Adds `scalar * multiplicand` to the accumulator with the word `acc_hi` above it, over the
    /// width of the multiplicand, drops the lowest word, and returns the carry out of that width.
    fn mul_acc_shift_row(
        scalar: u64,
        multiplicand: &Self,
        acc: &mut Self,
        acc_hi: u64,
    ) -> (carry: u64)
        ensures
            final(acc)@ == old(acc)@.after_shifted_row(scalar, multiplicand@, acc_hi),
            carry == old(acc)@.shifted_row_carry(scalar, multiplicand@, acc_hi),
            final(acc)@.n_limbs == old(acc)@.n_limbs,
    {
        acc.inner.add_row_shifted(scalar, &multiplicand.inner, multiplicand.n_limbs, acc_hi)
    }
}

} // verus!
