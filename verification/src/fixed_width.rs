//! A natural number of any size that carries a declared, stable limb count.
use vstd::prelude::*;
use core::cmp::Ordering;
use vstd::std_specs::cmp::{PartialEqSpecImpl, PartialOrdSpecImpl};
use vstd::std_specs::convert::FromSpecImpl;
use crate::biguint::{limb_len, order_of, BigUint};
use crate::limbs::LIMB_BITS;
use crate::model::{larger, width_modulus, FixedWidth};

verus! {

/// A [`BigUint`] with a declared stable limb count.
///
/// Arithmetic is that of `BigUint`. The declared width is what `bits_precision` and `word_count`
/// report, what wrapping and borrowing wrap at, and where carrying multiplication splits a
/// product. It does not bound the number itself. Equality and order look at the number alone,
/// while hashing takes the width in as well.
#[derive(Hash)]
pub struct FixedWidthBigUint {
    pub(crate) inner: BigUint,
    pub(crate) n_limbs: usize,
}

impl View for FixedWidthBigUint {
    type V = FixedWidth;

    open(crate) spec fn view(&self) -> FixedWidth {
        FixedWidth { value: self.inner@, n_limbs: self.n_limbs as nat }
    }
}

impl FixedWidthBigUint {
    /// Construct from a `BigUint` with a declared width.
    pub fn new(value: BigUint, n_limbs: usize) -> (r: Self)
        ensures
            r@ == FixedWidth::new(value@, n_limbs as nat),
    {
        FixedWidthBigUint { inner: value, n_limbs }
    }

    /// Construct from a `u64`.
    pub fn from_u64(value: u64, n_limbs: usize) -> (r: Self)
        ensures
            r@ == FixedWidth::new(value as nat, n_limbs as nat),
    {
        FixedWidthBigUint { inner: BigUint::from(value), n_limbs }
    }

    /// The declared width in limbs.
    pub fn n_limbs(&self) -> (r: usize)
        ensures
            r == self@.n_limbs,
    {
        self.n_limbs
    }

    /// The number.
    pub fn as_biguint(&self) -> (r: &BigUint)
        ensures
            r@ == self@.value,
    {
        &self.inner
    }

    /// The number, without its width.
    pub fn into_biguint(self) -> (r: BigUint)
        ensures
            r@ == self@.value,
    {
        self.inner
    }

    /// `2^(64 n)`: the modulus that wrapping and borrowing work with.
    pub(crate) fn width_modulus(n: usize) -> (r: BigUint)
        requires
            n * 64 <= usize::MAX,
        ensures
            r@ == width_modulus(n as nat),
    {
        BigUint::from(1u32) << (n * LIMB_BITS)
    }

    /// The number at the least width that holds it, which is never below one limb.
    fn at_least_width(inner: BigUint) -> (r: Self)
        ensures
            r@ == FixedWidth::new(inner@, larger(1, limb_len(inner@))),
    {
        let n_limbs = crate::limbs::larger(inner.limb_len(), 1);
        FixedWidthBigUint { inner, n_limbs }
    }

    /// How the number compares to another. The widths play no part.
    pub fn cmp(&self, other: &Self) -> (r: Ordering)
        ensures
            r == order_of(self@.value, other@.value),
    {
        self.inner.cmp(&other.inner)
    }
}

impl Clone for FixedWidthBigUint {
    fn clone(&self) -> (r: Self)
        ensures
            r@ == self@,
    {
        FixedWidthBigUint { inner: self.inner.clone(), n_limbs: self.n_limbs }
    }
}

impl PartialEqSpecImpl for FixedWidthBigUint {
    open spec fn obeys_eq_spec() -> bool {
        true
    }

    open spec fn eq_spec(&self, other: &Self) -> bool {
        self@.value == other@.value
    }
}

impl PartialEq for FixedWidthBigUint {
    fn eq(&self, other: &Self) -> (r: bool)
        ensures
            r == (self@.value == other@.value),
    {
        self.inner == other.inner
    }
}

impl Eq for FixedWidthBigUint {

}

impl PartialOrdSpecImpl for FixedWidthBigUint {
    open spec fn obeys_partial_cmp_spec() -> bool {
        true
    }

    open spec fn partial_cmp_spec(&self, other: &Self) -> Option<Ordering> {
        Some(order_of(self@.value, other@.value))
    }
}

impl PartialOrd for FixedWidthBigUint {
    fn partial_cmp(&self, other: &Self) -> (r: Option<Ordering>) {
        Some(self.cmp(other))
    }
}

impl Default for FixedWidthBigUint {
    /// Zero, one limb wide.
    fn default() -> (r: Self)
        ensures
            r@ == FixedWidth::new(0, 1),
    {
        FixedWidthBigUint { inner: BigUint::from(0u32), n_limbs: 1 }
    }
}

impl FromSpecImpl<u8> for FixedWidthBigUint {
    open spec fn obeys_from_spec() -> bool {
        false
    }

    open spec fn from_spec(v: u8) -> Self {
        arbitrary()
    }
}

impl From<u8> for FixedWidthBigUint {
    /// The number at the least width that holds it, which is never below one limb.
    fn from(v: u8) -> (r: Self)
        ensures
            r@ == FixedWidth::new(v as nat, larger(1, limb_len(v as nat))),
    {
        FixedWidthBigUint::at_least_width(BigUint::from(v))
    }
}

impl FromSpecImpl<u16> for FixedWidthBigUint {
    open spec fn obeys_from_spec() -> bool {
        false
    }

    open spec fn from_spec(v: u16) -> Self {
        arbitrary()
    }
}

impl From<u16> for FixedWidthBigUint {
    /// The number at the least width that holds it, which is never below one limb.
    fn from(v: u16) -> (r: Self)
        ensures
            r@ == FixedWidth::new(v as nat, larger(1, limb_len(v as nat))),
    {
        FixedWidthBigUint::at_least_width(BigUint::from(v))
    }
}

impl FromSpecImpl<u32> for FixedWidthBigUint {
    open spec fn obeys_from_spec() -> bool {
        false
    }

    open spec fn from_spec(v: u32) -> Self {
        arbitrary()
    }
}

impl From<u32> for FixedWidthBigUint {
    /// The number at the least width that holds it, which is never below one limb.
    fn from(v: u32) -> (r: Self)
        ensures
            r@ == FixedWidth::new(v as nat, larger(1, limb_len(v as nat))),
    {
        FixedWidthBigUint::at_least_width(BigUint::from(v))
    }
}

impl FromSpecImpl<u64> for FixedWidthBigUint {
    open spec fn obeys_from_spec() -> bool {
        false
    }

    open spec fn from_spec(v: u64) -> Self {
        arbitrary()
    }
}

impl From<u64> for FixedWidthBigUint {
    /// The number at the least width that holds it, which is never below one limb.
    fn from(v: u64) -> (r: Self)
        ensures
            r@ == FixedWidth::new(v as nat, larger(1, limb_len(v as nat))),
    {
        FixedWidthBigUint::at_least_width(BigUint::from(v))
    }
}

impl FromSpecImpl<u128> for FixedWidthBigUint {
    open spec fn obeys_from_spec() -> bool {
        false
    }

    open spec fn from_spec(v: u128) -> Self {
        arbitrary()
    }
}

impl From<u128> for FixedWidthBigUint {
    /// The number at the least width that holds it, which is never below one limb.
    fn from(v: u128) -> (r: Self)
        ensures
            r@ == FixedWidth::new(v as nat, larger(1, limb_len(v as nat))),
    {
        FixedWidthBigUint::at_least_width(BigUint::from(v))
    }
}

impl FromSpecImpl<usize> for FixedWidthBigUint {
    open spec fn obeys_from_spec() -> bool {
        false
    }

    open spec fn from_spec(v: usize) -> Self {
        arbitrary()
    }
}

impl From<usize> for FixedWidthBigUint {
    /// The number at the least width that holds it, which is never below one limb.
    fn from(v: usize) -> (r: Self)
        ensures
            r@ == FixedWidth::new(v as nat, larger(1, limb_len(v as nat))),
    {
        FixedWidthBigUint::at_least_width(BigUint::from(v))
    }
}

} // verus!
