//! The numeric traits: identities, widths, parity, and wrapping, overflowing, checked, borrowing
//! and carrying arithmetic.
use vstd::prelude::*;
use const_num_traits::ops::bits::{BitsPrecision, WithPrecision};
use const_num_traits::ops::carrying::CarryingMul;
use const_num_traits::ops::checked::{CheckedAdd, CheckedMul};
use const_num_traits::ops::overflowing::{OverflowingAdd, OverflowingMul, OverflowingSub};
use const_num_traits::ops::wrapping::{WrappingAdd, WrappingMul, WrappingSub};
use const_num_traits::{BorrowingSub, HasPersonality, Nct, One, Parity, Zero};
use num_traits::Zero as NumZero;
use vstd::arithmetic::power2::lemma_pow2_pos;
use crate::biguint::{lemma_limb_len_bound, BigUint};
use crate::bitwise::lemma_low_mask;
use crate::fixed_width::FixedWidthBigUint;
use crate::limbs::{larger, LIMB_BITS};
use crate::model::{limbs_for_bits, width_modulus, FixedWidth};

verus! {

/// Declares `const_num_traits::Nct`, the marker of code whose timing may depend on values. It is
/// only named as an associated type; nothing is claimed of it.
#[verifier::external_type_specification]
#[verifier::external_body]
pub struct ExNct(Nct);

impl HasPersonality for FixedWidthBigUint {
    type P = Nct;
}

impl Zero for FixedWidthBigUint {
    /// Zero, one limb wide.
    fn zero() -> (r: Self)
        ensures
            r@ == FixedWidth::new(0, 1),
    {
        FixedWidthBigUint::default()
    }

    fn is_zero(&self) -> (r: bool)
        ensures
            r == (self@.value == 0),
    {
        NumZero::is_zero(&self.inner)
    }

    /// Zero takes the place of the number; the width stays.
    fn set_zero(&mut self)
        ensures
            final(self)@ == FixedWidth::new(0, old(self)@.n_limbs),
    {
        self.inner = BigUint::from(0u32);
    }
}

impl One for FixedWidthBigUint {
    /// One, one limb wide.
    fn one() -> (r: Self)
        ensures
            r@ == FixedWidth::new(1, 1),
    {
        FixedWidthBigUint { inner: BigUint::from(1u32), n_limbs: 1 }
    }

    fn is_one(&self) -> (r: bool)
        ensures
            r == (self@.value == 1),
    {
        self.inner.is_one()
    }

    /// One takes the place of the number; the width stays.
    fn set_one(&mut self)
        ensures
            final(self)@ == FixedWidth::new(1, old(self)@.n_limbs),
    {
        self.inner = BigUint::from(1u32);
    }
}

/// The declared width in bits, reduced to the 32 bits of the result.
fn width_in_bits(n_limbs: usize) -> (r: u32)
    requires
        n_limbs * 64 <= usize::MAX,
    ensures
        r == (n_limbs * 64) % 0x1_0000_0000,
{
    let bits = (n_limbs * LIMB_BITS) as u64;
    assert((bits as u32) as u64 == bits % 0x1_0000_0000) by (bit_vector);
    bits as u32
}

impl BitsPrecision for FixedWidthBigUint {
    /// The declared width in bits, reduced to the 32 bits of the result.
    fn bits_precision(&self) -> (r: u32)
        requires
            self@.n_limbs * 64 <= usize::MAX,
        ensures
            r == (self@.n_limbs * 64) % 0x1_0000_0000,
    {
        width_in_bits(self.n_limbs)
    }
}

impl BitsPrecision for &FixedWidthBigUint {
    /// The declared width in bits, reduced to the 32 bits of the result.
    fn bits_precision(&self) -> (r: u32)
        requires
            self@.n_limbs * 64 <= usize::MAX,
        ensures
            r == (self@.n_limbs * 64) % 0x1_0000_0000,
    {
        width_in_bits(self.n_limbs)
    }
}

/// How many limbs hold that many bits.
fn limbs_of_precision(bits_precision: u32) -> (r: usize)
    ensures
        r == limbs_for_bits(bits_precision as nat),
{
    let whole = (bits_precision / 64) as usize;
    if bits_precision % 64 == 0 {
        whole
    } else {
        whole + 1
    }
}

impl WithPrecision for FixedWidthBigUint {
    /// The number as it is: it grows as it needs to, whatever its width.
    fn widen_to_precision(self, _bits_precision: u32) -> (r: Self)
        ensures
            r@ == self@,
    {
        self
    }

    fn zero_with_precision(bits_precision: u32) -> (r: Self)
        ensures
            r@ == FixedWidth::new(0, limbs_for_bits(bits_precision as nat)),
    {
        let n_limbs = limbs_of_precision(bits_precision);
        FixedWidthBigUint { inner: BigUint::from(0u32), n_limbs }
    }

    fn one_with_precision(bits_precision: u32) -> (r: Self)
        ensures
            r@ == FixedWidth::new(1, limbs_for_bits(bits_precision as nat)),
    {
        let n_limbs = limbs_of_precision(bits_precision);
        FixedWidthBigUint { inner: BigUint::from(1u32), n_limbs }
    }

    /// The number at the width of the witness.
    fn widen_to_precision_of(self, witness: &Self) -> (r: Self)
        ensures
            r@ == FixedWidth::new(self@.value, witness@.n_limbs),
    {
        FixedWidthBigUint { inner: self.inner, n_limbs: witness.n_limbs }
    }

    fn zero_with_precision_of(witness: &Self) -> (r: Self)
        ensures
            r@ == FixedWidth::new(0, witness@.n_limbs),
    {
        FixedWidthBigUint { inner: BigUint::from(0u32), n_limbs: witness.n_limbs }
    }

    fn one_with_precision_of(witness: &Self) -> (r: Self)
        ensures
            r@ == FixedWidth::new(1, witness@.n_limbs),
    {
        FixedWidthBigUint { inner: BigUint::from(1u32), n_limbs: witness.n_limbs }
    }
}

impl Parity for FixedWidthBigUint {
    fn is_odd(self) -> (r: bool)
        ensures
            r == (self@.value % 2 == 1),
    {
        self.inner.is_odd()
    }

    fn is_even(self) -> (r: bool)
        ensures
            r == (self@.value % 2 == 0),
    {
        !Parity::is_odd(self)
    }
}

impl Parity for &FixedWidthBigUint {
    fn is_odd(self) -> (r: bool)
        ensures
            r == (self@.value % 2 == 1),
    {
        self.inner.is_odd()
    }

    fn is_even(self) -> (r: bool)
        ensures
            r == (self@.value % 2 == 0),
    {
        !self.inner.is_odd()
    }
}

impl WrappingAdd for FixedWidthBigUint {
    type Output = Self;

    /// The sum, masked to the wider width.
    fn wrapping_add(self, rhs: Self) -> (r: Self)
        requires
            self@.wider(rhs@) * 64 <= usize::MAX,
        ensures
            r@ == self@.wrapping_plus(rhs@),
    {
        let n_limbs = larger(self.n_limbs, rhs.n_limbs);
        let sum = self.inner + rhs.inner;
        let ghost total = sum@;
        proof {
            lemma_limb_len_bound(total, n_limbs as nat);
            lemma_pow2_pos(64 * n_limbs as nat);
        }
        let inner = if sum.limb_len() > n_limbs {
            proof {
                lemma_low_mask(total, 64 * n_limbs as nat);
            }
            sum & (FixedWidthBigUint::width_modulus(n_limbs) - BigUint::from(1u32))
        } else {
            proof {
                vstd::arithmetic::div_mod::lemma_small_mod(total, width_modulus(n_limbs as nat));
            }
            sum
        };
        FixedWidthBigUint { inner, n_limbs }
    }
}

impl WrappingSub for FixedWidthBigUint {
    type Output = Self;

    /// The difference, with one modulus of the wider width added where it would be negative.
    fn wrapping_sub(self, rhs: Self) -> (r: Self)
        requires
            self@.can_borrow(rhs@, false),
        ensures
            r@ == self@.borrowing_minus(rhs@, false),
    {
        let n_limbs = larger(self.n_limbs, rhs.n_limbs);
        let inner = if self.inner >= rhs.inner {
            self.inner - rhs.inner
        } else {
            FixedWidthBigUint::width_modulus(n_limbs) + self.inner - rhs.inner
        };
        FixedWidthBigUint { inner, n_limbs }
    }
}

impl WrappingMul for FixedWidthBigUint {
    type Output = Self;

    /// The product. It grows as it needs to and is not reduced.
    fn wrapping_mul(self, rhs: Self) -> (r: Self)
        ensures
            r@ == self@.times(rhs@),
    {
        let n_limbs = larger(self.n_limbs, rhs.n_limbs);
        FixedWidthBigUint { inner: self.inner * rhs.inner, n_limbs }
    }
}

impl WrappingAdd for &FixedWidthBigUint {
    type Output = FixedWidthBigUint;

    /// The sum, masked to the wider width.
    fn wrapping_add(self, rhs: Self) -> (r: FixedWidthBigUint)
        requires
            self@.wider(rhs@) * 64 <= usize::MAX,
        ensures
            r@ == self@.wrapping_plus(rhs@),
    {
        self.clone().wrapping_add(rhs.clone())
    }
}

impl WrappingSub for &FixedWidthBigUint {
    type Output = FixedWidthBigUint;

    /// The difference, with one modulus of the wider width added where it would be negative.
    fn wrapping_sub(self, rhs: Self) -> (r: FixedWidthBigUint)
        requires
            self@.can_borrow(rhs@, false),
        ensures
            r@ == self@.borrowing_minus(rhs@, false),
    {
        self.clone().wrapping_sub(rhs.clone())
    }
}

impl OverflowingAdd for FixedWidthBigUint {
    type Output = Self;

    /// The sum, masked to the wider width. The flag is never raised.
    fn overflowing_add(self, rhs: Self) -> (r: (Self, bool))
        requires
            self@.wider(rhs@) * 64 <= usize::MAX,
        ensures
            r.0@ == self@.wrapping_plus(rhs@),
            !r.1,
    {
        (self.wrapping_add(rhs), false)
    }
}

impl OverflowingSub for FixedWidthBigUint {
    type Output = Self;

    /// The difference, with one modulus of the wider width added where it would be negative, and
    /// whether it would be.
    fn overflowing_sub(self, rhs: Self) -> (r: (Self, bool))
        requires
            self@.can_borrow(rhs@, false),
        ensures
            r.0@ == self@.borrowing_minus(rhs@, false),
            r.1 == (self@.value < rhs@.value),
    {
        let n_limbs = larger(self.n_limbs, rhs.n_limbs);
        if self.inner >= rhs.inner {
            (FixedWidthBigUint { inner: self.inner - rhs.inner, n_limbs }, false)
        } else {
            let inner = FixedWidthBigUint::width_modulus(n_limbs) + self.inner - rhs.inner;
            (FixedWidthBigUint { inner, n_limbs }, true)
        }
    }
}

impl OverflowingMul for FixedWidthBigUint {
    type Output = Self;

    /// The product, which grows as it needs to. The flag is never raised.
    fn overflowing_mul(self, rhs: Self) -> (r: (Self, bool))
        ensures
            r.0@ == self@.times(rhs@),
            !r.1,
    {
        (self.wrapping_mul(rhs), false)
    }
}

impl CheckedAdd for FixedWidthBigUint {
    type Output = Self;

    /// The sum, which grows as it needs to.
    fn checked_add(self, rhs: Self) -> (r: Option<Self>)
        ensures
            r is Some,
            r->0@ == self@.plus(rhs@),
    {
        let n_limbs = larger(self.n_limbs, rhs.n_limbs);
        Some(FixedWidthBigUint { inner: self.inner + rhs.inner, n_limbs })
    }
}

impl CheckedMul for FixedWidthBigUint {
    type Output = Self;

    /// The product, which grows as it needs to.
    fn checked_mul(self, rhs: Self) -> (r: Option<Self>)
        ensures
            r is Some,
            r->0@ == self@.times(rhs@),
    {
        let n_limbs = larger(self.n_limbs, rhs.n_limbs);
        Some(FixedWidthBigUint { inner: self.inner * rhs.inner, n_limbs })
    }
}

impl BorrowingSub for FixedWidthBigUint {
    type Output = Self;

    /// The difference less the incoming borrow, with one modulus of the wider width added where it
    /// would be negative, and whether it would be.
    fn borrowing_sub(self, rhs: Self, borrow: bool) -> (r: (Self, bool))
        requires
            self@.can_borrow(rhs@, borrow),
        ensures
            r.0@ == self@.borrowing_minus(rhs@, borrow),
            r.1 == (self@.difference(rhs@, borrow) < 0),
    {
        let n_limbs = larger(self.n_limbs, rhs.n_limbs);
        let subtrahend = rhs.inner + BigUint::from(if borrow {
            1u32
        } else {
            0u32
        });
        if self.inner < subtrahend {
            let inner = FixedWidthBigUint::width_modulus(n_limbs) + self.inner - subtrahend;
            (FixedWidthBigUint { inner, n_limbs }, true)
        } else {
            (FixedWidthBigUint { inner: self.inner - subtrahend, n_limbs }, false)
        }
    }
}

/// Splits a number at the width of `n` limbs.
fn split_at_width(total: BigUint, n_limbs: usize) -> (r: (FixedWidthBigUint, FixedWidthBigUint))
    requires
        n_limbs * 64 <= usize::MAX,
    ensures
        r.0@ == FixedWidth::low_part(total@, n_limbs as nat),
        r.1@ == FixedWidth::high_part(total@, n_limbs as nat),
{
    proof {
        lemma_pow2_pos(64 * n_limbs as nat);
        lemma_low_mask(total@, 64 * n_limbs as nat);
    }
    let mask = FixedWidthBigUint::width_modulus(n_limbs) - BigUint::from(1u32);
    let low = total.clone() & mask;
    let high = total >> (n_limbs * LIMB_BITS);
    (FixedWidthBigUint { inner: low, n_limbs }, FixedWidthBigUint { inner: high, n_limbs })
}

impl CarryingMul for FixedWidthBigUint {
    type Unsigned = Self;

    type Output = Self;

    /// The product plus the carry, split at the wider width of the two factors.
    fn carrying_mul(self, rhs: Self, carry: Self) -> (r: (Self, Self))
        requires
            self@.wider(rhs@) * 64 <= usize::MAX,
        ensures
            ({
                let n = self@.wider(rhs@);
                let total = self@.value * rhs@.value + carry@.value;
                &&& r.0@ == FixedWidth::low_part(total, n)
                &&& r.1@ == FixedWidth::high_part(total, n)
            }),
    {
        let n_limbs = larger(self.n_limbs, rhs.n_limbs);
        split_at_width(self.inner * rhs.inner + carry.inner, n_limbs)
    }

    /// The product plus the carry plus the addend, split at the wider width of the two factors.
    fn carrying_mul_add(self, rhs: Self, carry: Self, add: Self) -> (r: (Self, Self))
        requires
            self@.wider(rhs@) * 64 <= usize::MAX,
        ensures
            ({
                let n = self@.wider(rhs@);
                let total = self@.value * rhs@.value + carry@.value + add@.value;
                &&& r.0@ == FixedWidth::low_part(total, n)
                &&& r.1@ == FixedWidth::high_part(total, n)
            }),
    {
        let n_limbs = larger(self.n_limbs, rhs.n_limbs);
        split_at_width(self.inner * rhs.inner + carry.inner + add.inner, n_limbs)
    }
}

} // verus!
