//! The operators. A result has the width of the wider operand; a shift keeps the width.
//!
//! The operator traits of vstd offer one equation between values of the type. Two values that hold
//! the same number need not be the same value, so that equation is not taken up: each operator
//! states in its own `ensures` which number and width its result has, and the `_req` functions say
//! on which operands it is defined.
use vstd::prelude::*;
use core::ops::{Add, BitAnd, BitOr, BitXor, Div, Mul, Rem, RemAssign, Shl, Shr, ShrAssign, Sub};
use vstd::std_specs::ops::{
    AddSpecImpl, BitAndSpecImpl, BitOrSpecImpl, BitXorSpecImpl, DivSpecImpl, MulSpecImpl,
    RemSpecImpl, ShlSpecImpl, ShrSpecImpl, SubSpecImpl,
};
use crate::bitwise::BitOp;
use crate::fixed_width::FixedWidthBigUint;
use crate::limbs::larger;
use crate::model::FixedWidth;

verus! {

impl AddSpecImpl for FixedWidthBigUint {
    open spec fn obeys_add_spec() -> bool {
        false
    }

    open spec fn add_req(self, rhs: FixedWidthBigUint) -> bool {
        true
    }

    open spec fn add_spec(self, rhs: FixedWidthBigUint) -> FixedWidthBigUint {
        arbitrary()
    }
}

impl Add for FixedWidthBigUint {
    type Output = FixedWidthBigUint;

    fn add(self, rhs: FixedWidthBigUint) -> (r: FixedWidthBigUint)
        ensures
            r@ == self@.plus(rhs@),
    {
        let n_limbs = larger(self.n_limbs, rhs.n_limbs);
        FixedWidthBigUint { inner: self.inner + rhs.inner, n_limbs }
    }
}

impl AddSpecImpl<&FixedWidthBigUint> for FixedWidthBigUint {
    open spec fn obeys_add_spec() -> bool {
        false
    }

    open spec fn add_req(self, rhs: &FixedWidthBigUint) -> bool {
        true
    }

    open spec fn add_spec(self, rhs: &FixedWidthBigUint) -> FixedWidthBigUint {
        arbitrary()
    }
}

impl Add<&FixedWidthBigUint> for FixedWidthBigUint {
    type Output = FixedWidthBigUint;

    fn add(self, rhs: &FixedWidthBigUint) -> (r: FixedWidthBigUint)
        ensures
            r@ == self@.plus(rhs@),
    {
        let n_limbs = larger(self.n_limbs, rhs.n_limbs);
        FixedWidthBigUint { inner: self.inner + rhs.inner.clone(), n_limbs }
    }
}

impl AddSpecImpl<FixedWidthBigUint> for &FixedWidthBigUint {
    open spec fn obeys_add_spec() -> bool {
        false
    }

    open spec fn add_req(self, rhs: FixedWidthBigUint) -> bool {
        true
    }

    open spec fn add_spec(self, rhs: FixedWidthBigUint) -> FixedWidthBigUint {
        arbitrary()
    }
}

impl Add<FixedWidthBigUint> for &FixedWidthBigUint {
    type Output = FixedWidthBigUint;

    fn add(self, rhs: FixedWidthBigUint) -> (r: FixedWidthBigUint)
        ensures
            r@ == self@.plus(rhs@),
    {
        let n_limbs = larger(self.n_limbs, rhs.n_limbs);
        FixedWidthBigUint { inner: self.inner.clone() + rhs.inner, n_limbs }
    }
}

impl AddSpecImpl<&FixedWidthBigUint> for &FixedWidthBigUint {
    open spec fn obeys_add_spec() -> bool {
        false
    }

    open spec fn add_req(self, rhs: &FixedWidthBigUint) -> bool {
        true
    }

    open spec fn add_spec(self, rhs: &FixedWidthBigUint) -> FixedWidthBigUint {
        arbitrary()
    }
}

impl Add<&FixedWidthBigUint> for &FixedWidthBigUint {
    type Output = FixedWidthBigUint;

    fn add(self, rhs: &FixedWidthBigUint) -> (r: FixedWidthBigUint)
        ensures
            r@ == self@.plus(rhs@),
    {
        let n_limbs = larger(self.n_limbs, rhs.n_limbs);
        FixedWidthBigUint { inner: self.inner.clone() + rhs.inner.clone(), n_limbs }
    }
}

impl SubSpecImpl for FixedWidthBigUint {
    open spec fn obeys_sub_spec() -> bool {
        false
    }

    open spec fn sub_req(self, rhs: FixedWidthBigUint) -> bool {
        rhs@.value <= self@.value
    }

    open spec fn sub_spec(self, rhs: FixedWidthBigUint) -> FixedWidthBigUint {
        arbitrary()
    }
}

impl Sub for FixedWidthBigUint {
    type Output = FixedWidthBigUint;

    fn sub(self, rhs: FixedWidthBigUint) -> (r: FixedWidthBigUint)
        ensures
            r@ == self@.minus(rhs@),
    {
        let n_limbs = larger(self.n_limbs, rhs.n_limbs);
        FixedWidthBigUint { inner: self.inner - rhs.inner, n_limbs }
    }
}

impl SubSpecImpl<&FixedWidthBigUint> for FixedWidthBigUint {
    open spec fn obeys_sub_spec() -> bool {
        false
    }

    open spec fn sub_req(self, rhs: &FixedWidthBigUint) -> bool {
        rhs@.value <= self@.value
    }

    open spec fn sub_spec(self, rhs: &FixedWidthBigUint) -> FixedWidthBigUint {
        arbitrary()
    }
}

impl Sub<&FixedWidthBigUint> for FixedWidthBigUint {
    type Output = FixedWidthBigUint;

    fn sub(self, rhs: &FixedWidthBigUint) -> (r: FixedWidthBigUint)
        ensures
            r@ == self@.minus(rhs@),
    {
        let n_limbs = larger(self.n_limbs, rhs.n_limbs);
        FixedWidthBigUint { inner: self.inner - rhs.inner.clone(), n_limbs }
    }
}

impl SubSpecImpl<FixedWidthBigUint> for &FixedWidthBigUint {
    open spec fn obeys_sub_spec() -> bool {
        false
    }

    open spec fn sub_req(self, rhs: FixedWidthBigUint) -> bool {
        rhs@.value <= self@.value
    }

    open spec fn sub_spec(self, rhs: FixedWidthBigUint) -> FixedWidthBigUint {
        arbitrary()
    }
}

impl Sub<FixedWidthBigUint> for &FixedWidthBigUint {
    type Output = FixedWidthBigUint;

    fn sub(self, rhs: FixedWidthBigUint) -> (r: FixedWidthBigUint)
        ensures
            r@ == self@.minus(rhs@),
    {
        let n_limbs = larger(self.n_limbs, rhs.n_limbs);
        FixedWidthBigUint { inner: self.inner.clone() - rhs.inner, n_limbs }
    }
}

impl SubSpecImpl<&FixedWidthBigUint> for &FixedWidthBigUint {
    open spec fn obeys_sub_spec() -> bool {
        false
    }

    open spec fn sub_req(self, rhs: &FixedWidthBigUint) -> bool {
        rhs@.value <= self@.value
    }

    open spec fn sub_spec(self, rhs: &FixedWidthBigUint) -> FixedWidthBigUint {
        arbitrary()
    }
}

impl Sub<&FixedWidthBigUint> for &FixedWidthBigUint {
    type Output = FixedWidthBigUint;

    fn sub(self, rhs: &FixedWidthBigUint) -> (r: FixedWidthBigUint)
        ensures
            r@ == self@.minus(rhs@),
    {
        let n_limbs = larger(self.n_limbs, rhs.n_limbs);
        FixedWidthBigUint { inner: self.inner.clone() - rhs.inner.clone(), n_limbs }
    }
}

impl MulSpecImpl for FixedWidthBigUint {
    open spec fn obeys_mul_spec() -> bool {
        false
    }

    open spec fn mul_req(self, rhs: FixedWidthBigUint) -> bool {
        true
    }

    open spec fn mul_spec(self, rhs: FixedWidthBigUint) -> FixedWidthBigUint {
        arbitrary()
    }
}

impl Mul for FixedWidthBigUint {
    type Output = FixedWidthBigUint;

    fn mul(self, rhs: FixedWidthBigUint) -> (r: FixedWidthBigUint)
        ensures
            r@ == self@.times(rhs@),
    {
        let n_limbs = larger(self.n_limbs, rhs.n_limbs);
        FixedWidthBigUint { inner: self.inner * rhs.inner, n_limbs }
    }
}

impl MulSpecImpl<&FixedWidthBigUint> for FixedWidthBigUint {
    open spec fn obeys_mul_spec() -> bool {
        false
    }

    open spec fn mul_req(self, rhs: &FixedWidthBigUint) -> bool {
        true
    }

    open spec fn mul_spec(self, rhs: &FixedWidthBigUint) -> FixedWidthBigUint {
        arbitrary()
    }
}

impl Mul<&FixedWidthBigUint> for FixedWidthBigUint {
    type Output = FixedWidthBigUint;

    fn mul(self, rhs: &FixedWidthBigUint) -> (r: FixedWidthBigUint)
        ensures
            r@ == self@.times(rhs@),
    {
        let n_limbs = larger(self.n_limbs, rhs.n_limbs);
        FixedWidthBigUint { inner: self.inner * rhs.inner.clone(), n_limbs }
    }
}

impl MulSpecImpl<FixedWidthBigUint> for &FixedWidthBigUint {
    open spec fn obeys_mul_spec() -> bool {
        false
    }

    open spec fn mul_req(self, rhs: FixedWidthBigUint) -> bool {
        true
    }

    open spec fn mul_spec(self, rhs: FixedWidthBigUint) -> FixedWidthBigUint {
        arbitrary()
    }
}

impl Mul<FixedWidthBigUint> for &FixedWidthBigUint {
    type Output = FixedWidthBigUint;

    fn mul(self, rhs: FixedWidthBigUint) -> (r: FixedWidthBigUint)
        ensures
            r@ == self@.times(rhs@),
    {
        let n_limbs = larger(self.n_limbs, rhs.n_limbs);
        FixedWidthBigUint { inner: self.inner.clone() * rhs.inner, n_limbs }
    }
}

impl MulSpecImpl<&FixedWidthBigUint> for &FixedWidthBigUint {
    open spec fn obeys_mul_spec() -> bool {
        false
    }

    open spec fn mul_req(self, rhs: &FixedWidthBigUint) -> bool {
        true
    }

    open spec fn mul_spec(self, rhs: &FixedWidthBigUint) -> FixedWidthBigUint {
        arbitrary()
    }
}

impl Mul<&FixedWidthBigUint> for &FixedWidthBigUint {
    type Output = FixedWidthBigUint;

    fn mul(self, rhs: &FixedWidthBigUint) -> (r: FixedWidthBigUint)
        ensures
            r@ == self@.times(rhs@),
    {
        let n_limbs = larger(self.n_limbs, rhs.n_limbs);
        FixedWidthBigUint { inner: self.inner.clone() * rhs.inner.clone(), n_limbs }
    }
}

impl DivSpecImpl for FixedWidthBigUint {
    open spec fn obeys_div_spec() -> bool {
        false
    }

    open spec fn div_req(self, rhs: FixedWidthBigUint) -> bool {
        rhs@.value != 0
    }

    open spec fn div_spec(self, rhs: FixedWidthBigUint) -> FixedWidthBigUint {
        arbitrary()
    }
}

impl Div for FixedWidthBigUint {
    type Output = FixedWidthBigUint;

    fn div(self, rhs: FixedWidthBigUint) -> (r: FixedWidthBigUint)
        ensures
            r@ == self@.quotient(rhs@),
    {
        let n_limbs = larger(self.n_limbs, rhs.n_limbs);
        FixedWidthBigUint { inner: self.inner / rhs.inner, n_limbs }
    }
}

impl DivSpecImpl<&FixedWidthBigUint> for FixedWidthBigUint {
    open spec fn obeys_div_spec() -> bool {
        false
    }

    open spec fn div_req(self, rhs: &FixedWidthBigUint) -> bool {
        rhs@.value != 0
    }

    open spec fn div_spec(self, rhs: &FixedWidthBigUint) -> FixedWidthBigUint {
        arbitrary()
    }
}

impl Div<&FixedWidthBigUint> for FixedWidthBigUint {
    type Output = FixedWidthBigUint;

    fn div(self, rhs: &FixedWidthBigUint) -> (r: FixedWidthBigUint)
        ensures
            r@ == self@.quotient(rhs@),
    {
        let n_limbs = larger(self.n_limbs, rhs.n_limbs);
        FixedWidthBigUint { inner: self.inner / rhs.inner.clone(), n_limbs }
    }
}

impl DivSpecImpl<FixedWidthBigUint> for &FixedWidthBigUint {
    open spec fn obeys_div_spec() -> bool {
        false
    }

    open spec fn div_req(self, rhs: FixedWidthBigUint) -> bool {
        rhs@.value != 0
    }

    open spec fn div_spec(self, rhs: FixedWidthBigUint) -> FixedWidthBigUint {
        arbitrary()
    }
}

impl Div<FixedWidthBigUint> for &FixedWidthBigUint {
    type Output = FixedWidthBigUint;

    fn div(self, rhs: FixedWidthBigUint) -> (r: FixedWidthBigUint)
        ensures
            r@ == self@.quotient(rhs@),
    {
        let n_limbs = larger(self.n_limbs, rhs.n_limbs);
        FixedWidthBigUint { inner: self.inner.clone() / rhs.inner, n_limbs }
    }
}

impl DivSpecImpl<&FixedWidthBigUint> for &FixedWidthBigUint {
    open spec fn obeys_div_spec() -> bool {
        false
    }

    open spec fn div_req(self, rhs: &FixedWidthBigUint) -> bool {
        rhs@.value != 0
    }

    open spec fn div_spec(self, rhs: &FixedWidthBigUint) -> FixedWidthBigUint {
        arbitrary()
    }
}

impl Div<&FixedWidthBigUint> for &FixedWidthBigUint {
    type Output = FixedWidthBigUint;

    fn div(self, rhs: &FixedWidthBigUint) -> (r: FixedWidthBigUint)
        ensures
            r@ == self@.quotient(rhs@),
    {
        let n_limbs = larger(self.n_limbs, rhs.n_limbs);
        FixedWidthBigUint { inner: self.inner.clone() / rhs.inner.clone(), n_limbs }
    }
}

impl RemSpecImpl for FixedWidthBigUint {
    open spec fn obeys_rem_spec() -> bool {
        false
    }

    open spec fn rem_req(self, rhs: FixedWidthBigUint) -> bool {
        rhs@.value != 0
    }

    open spec fn rem_spec(self, rhs: FixedWidthBigUint) -> FixedWidthBigUint {
        arbitrary()
    }
}

impl Rem for FixedWidthBigUint {
    type Output = FixedWidthBigUint;

    fn rem(self, rhs: FixedWidthBigUint) -> (r: FixedWidthBigUint)
        ensures
            r@ == self@.remainder(rhs@),
    {
        let n_limbs = larger(self.n_limbs, rhs.n_limbs);
        FixedWidthBigUint { inner: self.inner % rhs.inner, n_limbs }
    }
}

impl RemSpecImpl<&FixedWidthBigUint> for FixedWidthBigUint {
    open spec fn obeys_rem_spec() -> bool {
        false
    }

    open spec fn rem_req(self, rhs: &FixedWidthBigUint) -> bool {
        rhs@.value != 0
    }

    open spec fn rem_spec(self, rhs: &FixedWidthBigUint) -> FixedWidthBigUint {
        arbitrary()
    }
}

impl Rem<&FixedWidthBigUint> for FixedWidthBigUint {
    type Output = FixedWidthBigUint;

    fn rem(self, rhs: &FixedWidthBigUint) -> (r: FixedWidthBigUint)
        ensures
            r@ == self@.remainder(rhs@),
    {
        let n_limbs = larger(self.n_limbs, rhs.n_limbs);
        FixedWidthBigUint { inner: self.inner % rhs.inner.clone(), n_limbs }
    }
}

impl RemSpecImpl<FixedWidthBigUint> for &FixedWidthBigUint {
    open spec fn obeys_rem_spec() -> bool {
        false
    }

    open spec fn rem_req(self, rhs: FixedWidthBigUint) -> bool {
        rhs@.value != 0
    }

    open spec fn rem_spec(self, rhs: FixedWidthBigUint) -> FixedWidthBigUint {
        arbitrary()
    }
}

impl Rem<FixedWidthBigUint> for &FixedWidthBigUint {
    type Output = FixedWidthBigUint;

    fn rem(self, rhs: FixedWidthBigUint) -> (r: FixedWidthBigUint)
        ensures
            r@ == self@.remainder(rhs@),
    {
        let n_limbs = larger(self.n_limbs, rhs.n_limbs);
        FixedWidthBigUint { inner: self.inner.clone() % rhs.inner, n_limbs }
    }
}

impl RemSpecImpl<&FixedWidthBigUint> for &FixedWidthBigUint {
    open spec fn obeys_rem_spec() -> bool {
        false
    }

    open spec fn rem_req(self, rhs: &FixedWidthBigUint) -> bool {
        rhs@.value != 0
    }

    open spec fn rem_spec(self, rhs: &FixedWidthBigUint) -> FixedWidthBigUint {
        arbitrary()
    }
}

impl Rem<&FixedWidthBigUint> for &FixedWidthBigUint {
    type Output = FixedWidthBigUint;

    fn rem(self, rhs: &FixedWidthBigUint) -> (r: FixedWidthBigUint)
        ensures
            r@ == self@.remainder(rhs@),
    {
        let n_limbs = larger(self.n_limbs, rhs.n_limbs);
        FixedWidthBigUint { inner: self.inner.clone() % rhs.inner.clone(), n_limbs }
    }
}

impl BitAndSpecImpl for FixedWidthBigUint {
    open spec fn obeys_bitand_spec() -> bool {
        false
    }

    open spec fn bitand_req(self, rhs: FixedWidthBigUint) -> bool {
        true
    }

    open spec fn bitand_spec(self, rhs: FixedWidthBigUint) -> FixedWidthBigUint {
        arbitrary()
    }
}

impl BitAnd for FixedWidthBigUint {
    type Output = FixedWidthBigUint;

    fn bitand(self, rhs: FixedWidthBigUint) -> (r: FixedWidthBigUint)
        ensures
            r@ == self@.bitwise(BitOp::And, rhs@),
    {
        let n_limbs = larger(self.n_limbs, rhs.n_limbs);
        FixedWidthBigUint { inner: self.inner & rhs.inner, n_limbs }
    }
}

impl BitAndSpecImpl<&FixedWidthBigUint> for FixedWidthBigUint {
    open spec fn obeys_bitand_spec() -> bool {
        false
    }

    open spec fn bitand_req(self, rhs: &FixedWidthBigUint) -> bool {
        true
    }

    open spec fn bitand_spec(self, rhs: &FixedWidthBigUint) -> FixedWidthBigUint {
        arbitrary()
    }
}

impl BitAnd<&FixedWidthBigUint> for FixedWidthBigUint {
    type Output = FixedWidthBigUint;

    fn bitand(self, rhs: &FixedWidthBigUint) -> (r: FixedWidthBigUint)
        ensures
            r@ == self@.bitwise(BitOp::And, rhs@),
    {
        let n_limbs = larger(self.n_limbs, rhs.n_limbs);
        FixedWidthBigUint { inner: self.inner & rhs.inner.clone(), n_limbs }
    }
}

impl BitAndSpecImpl<FixedWidthBigUint> for &FixedWidthBigUint {
    open spec fn obeys_bitand_spec() -> bool {
        false
    }

    open spec fn bitand_req(self, rhs: FixedWidthBigUint) -> bool {
        true
    }

    open spec fn bitand_spec(self, rhs: FixedWidthBigUint) -> FixedWidthBigUint {
        arbitrary()
    }
}

impl BitAnd<FixedWidthBigUint> for &FixedWidthBigUint {
    type Output = FixedWidthBigUint;

    fn bitand(self, rhs: FixedWidthBigUint) -> (r: FixedWidthBigUint)
        ensures
            r@ == self@.bitwise(BitOp::And, rhs@),
    {
        let n_limbs = larger(self.n_limbs, rhs.n_limbs);
        FixedWidthBigUint { inner: self.inner.clone() & rhs.inner, n_limbs }
    }
}

impl BitAndSpecImpl<&FixedWidthBigUint> for &FixedWidthBigUint {
    open spec fn obeys_bitand_spec() -> bool {
        false
    }

    open spec fn bitand_req(self, rhs: &FixedWidthBigUint) -> bool {
        true
    }

    open spec fn bitand_spec(self, rhs: &FixedWidthBigUint) -> FixedWidthBigUint {
        arbitrary()
    }
}

impl BitAnd<&FixedWidthBigUint> for &FixedWidthBigUint {
    type Output = FixedWidthBigUint;

    fn bitand(self, rhs: &FixedWidthBigUint) -> (r: FixedWidthBigUint)
        ensures
            r@ == self@.bitwise(BitOp::And, rhs@),
    {
        let n_limbs = larger(self.n_limbs, rhs.n_limbs);
        FixedWidthBigUint { inner: self.inner.clone() & rhs.inner.clone(), n_limbs }
    }
}

impl BitOrSpecImpl for FixedWidthBigUint {
    open spec fn obeys_bitor_spec() -> bool {
        false
    }

    open spec fn bitor_req(self, rhs: FixedWidthBigUint) -> bool {
        true
    }

    open spec fn bitor_spec(self, rhs: FixedWidthBigUint) -> FixedWidthBigUint {
        arbitrary()
    }
}

impl BitOr for FixedWidthBigUint {
    type Output = FixedWidthBigUint;

    fn bitor(self, rhs: FixedWidthBigUint) -> (r: FixedWidthBigUint)
        ensures
            r@ == self@.bitwise(BitOp::Or, rhs@),
    {
        let n_limbs = larger(self.n_limbs, rhs.n_limbs);
        FixedWidthBigUint { inner: self.inner | rhs.inner, n_limbs }
    }
}

impl BitOrSpecImpl<&FixedWidthBigUint> for FixedWidthBigUint {
    open spec fn obeys_bitor_spec() -> bool {
        false
    }

    open spec fn bitor_req(self, rhs: &FixedWidthBigUint) -> bool {
        true
    }

    open spec fn bitor_spec(self, rhs: &FixedWidthBigUint) -> FixedWidthBigUint {
        arbitrary()
    }
}

impl BitOr<&FixedWidthBigUint> for FixedWidthBigUint {
    type Output = FixedWidthBigUint;

    fn bitor(self, rhs: &FixedWidthBigUint) -> (r: FixedWidthBigUint)
        ensures
            r@ == self@.bitwise(BitOp::Or, rhs@),
    {
        let n_limbs = larger(self.n_limbs, rhs.n_limbs);
        FixedWidthBigUint { inner: self.inner | rhs.inner.clone(), n_limbs }
    }
}

impl BitOrSpecImpl<FixedWidthBigUint> for &FixedWidthBigUint {
    open spec fn obeys_bitor_spec() -> bool {
        false
    }

    open spec fn bitor_req(self, rhs: FixedWidthBigUint) -> bool {
        true
    }

    open spec fn bitor_spec(self, rhs: FixedWidthBigUint) -> FixedWidthBigUint {
        arbitrary()
    }
}

impl BitOr<FixedWidthBigUint> for &FixedWidthBigUint {
    type Output = FixedWidthBigUint;

    fn bitor(self, rhs: FixedWidthBigUint) -> (r: FixedWidthBigUint)
        ensures
            r@ == self@.bitwise(BitOp::Or, rhs@),
    {
        let n_limbs = larger(self.n_limbs, rhs.n_limbs);
        FixedWidthBigUint { inner: self.inner.clone() | rhs.inner, n_limbs }
    }
}

impl BitOrSpecImpl<&FixedWidthBigUint> for &FixedWidthBigUint {
    open spec fn obeys_bitor_spec() -> bool {
        false
    }

    open spec fn bitor_req(self, rhs: &FixedWidthBigUint) -> bool {
        true
    }

    open spec fn bitor_spec(self, rhs: &FixedWidthBigUint) -> FixedWidthBigUint {
        arbitrary()
    }
}

impl BitOr<&FixedWidthBigUint> for &FixedWidthBigUint {
    type Output = FixedWidthBigUint;

    fn bitor(self, rhs: &FixedWidthBigUint) -> (r: FixedWidthBigUint)
        ensures
            r@ == self@.bitwise(BitOp::Or, rhs@),
    {
        let n_limbs = larger(self.n_limbs, rhs.n_limbs);
        FixedWidthBigUint { inner: self.inner.clone() | rhs.inner.clone(), n_limbs }
    }
}

impl BitXorSpecImpl for FixedWidthBigUint {
    open spec fn obeys_bitxor_spec() -> bool {
        false
    }

    open spec fn bitxor_req(self, rhs: FixedWidthBigUint) -> bool {
        true
    }

    open spec fn bitxor_spec(self, rhs: FixedWidthBigUint) -> FixedWidthBigUint {
        arbitrary()
    }
}

impl BitXor for FixedWidthBigUint {
    type Output = FixedWidthBigUint;

    fn bitxor(self, rhs: FixedWidthBigUint) -> (r: FixedWidthBigUint)
        ensures
            r@ == self@.bitwise(BitOp::Xor, rhs@),
    {
        let n_limbs = larger(self.n_limbs, rhs.n_limbs);
        FixedWidthBigUint { inner: self.inner ^ rhs.inner, n_limbs }
    }
}

impl BitXorSpecImpl<&FixedWidthBigUint> for FixedWidthBigUint {
    open spec fn obeys_bitxor_spec() -> bool {
        false
    }

    open spec fn bitxor_req(self, rhs: &FixedWidthBigUint) -> bool {
        true
    }

    open spec fn bitxor_spec(self, rhs: &FixedWidthBigUint) -> FixedWidthBigUint {
        arbitrary()
    }
}

impl BitXor<&FixedWidthBigUint> for FixedWidthBigUint {
    type Output = FixedWidthBigUint;

    fn bitxor(self, rhs: &FixedWidthBigUint) -> (r: FixedWidthBigUint)
        ensures
            r@ == self@.bitwise(BitOp::Xor, rhs@),
    {
        let n_limbs = larger(self.n_limbs, rhs.n_limbs);
        FixedWidthBigUint { inner: self.inner ^ rhs.inner.clone(), n_limbs }
    }
}

impl BitXorSpecImpl<FixedWidthBigUint> for &FixedWidthBigUint {
    open spec fn obeys_bitxor_spec() -> bool {
        false
    }

    open spec fn bitxor_req(self, rhs: FixedWidthBigUint) -> bool {
        true
    }

    open spec fn bitxor_spec(self, rhs: FixedWidthBigUint) -> FixedWidthBigUint {
        arbitrary()
    }
}

impl BitXor<FixedWidthBigUint> for &FixedWidthBigUint {
    type Output = FixedWidthBigUint;

    fn bitxor(self, rhs: FixedWidthBigUint) -> (r: FixedWidthBigUint)
        ensures
            r@ == self@.bitwise(BitOp::Xor, rhs@),
    {
        let n_limbs = larger(self.n_limbs, rhs.n_limbs);
        FixedWidthBigUint { inner: self.inner.clone() ^ rhs.inner, n_limbs }
    }
}

impl BitXorSpecImpl<&FixedWidthBigUint> for &FixedWidthBigUint {
    open spec fn obeys_bitxor_spec() -> bool {
        false
    }

    open spec fn bitxor_req(self, rhs: &FixedWidthBigUint) -> bool {
        true
    }

    open spec fn bitxor_spec(self, rhs: &FixedWidthBigUint) -> FixedWidthBigUint {
        arbitrary()
    }
}

impl BitXor<&FixedWidthBigUint> for &FixedWidthBigUint {
    type Output = FixedWidthBigUint;

    fn bitxor(self, rhs: &FixedWidthBigUint) -> (r: FixedWidthBigUint)
        ensures
            r@ == self@.bitwise(BitOp::Xor, rhs@),
    {
        let n_limbs = larger(self.n_limbs, rhs.n_limbs);
        FixedWidthBigUint { inner: self.inner.clone() ^ rhs.inner.clone(), n_limbs }
    }
}

impl RemAssign for FixedWidthBigUint {
    /// The remainder takes the place of the number; the width stays.
    fn rem_assign(&mut self, rhs: Self)
        requires
            rhs@.value != 0,
        ensures
            final(self)@ == FixedWidth::new(old(self)@.value % rhs@.value, old(self)@.n_limbs),
    {
        self.inner = self.inner.clone() % rhs.inner;
    }
}

impl RemAssign<&FixedWidthBigUint> for FixedWidthBigUint {
    /// The remainder takes the place of the number; the width stays.
    fn rem_assign(&mut self, rhs: &Self)
        requires
            rhs@.value != 0,
        ensures
            final(self)@ == FixedWidth::new(old(self)@.value % rhs@.value, old(self)@.n_limbs),
    {
        self.inner = self.inner.clone() % rhs.inner.clone();
    }
}

impl ShrSpecImpl<usize> for FixedWidthBigUint {
    open spec fn obeys_shr_spec() -> bool {
        false
    }

    open spec fn shr_req(self, rhs: usize) -> bool {
        true
    }

    open spec fn shr_spec(self, rhs: usize) -> Self {
        arbitrary()
    }
}

impl Shr<usize> for FixedWidthBigUint {
    type Output = Self;

    fn shr(self, rhs: usize) -> (r: Self)
        ensures
            r@ == self@.shifted_down(rhs as nat),
    {
        FixedWidthBigUint { inner: self.inner >> rhs, n_limbs: self.n_limbs }
    }
}

impl ShlSpecImpl<usize> for FixedWidthBigUint {
    open spec fn obeys_shl_spec() -> bool {
        false
    }

    open spec fn shl_req(self, rhs: usize) -> bool {
        true
    }

    open spec fn shl_spec(self, rhs: usize) -> Self {
        arbitrary()
    }
}

impl Shl<usize> for FixedWidthBigUint {
    type Output = Self;

    fn shl(self, rhs: usize) -> (r: Self)
        ensures
            r@ == self@.shifted_up(rhs as nat),
    {
        FixedWidthBigUint { inner: self.inner << rhs, n_limbs: self.n_limbs }
    }
}

impl ShrAssign<usize> for FixedWidthBigUint {
    fn shr_assign(&mut self, rhs: usize)
        ensures
            final(self)@ == old(self)@.shifted_down(rhs as nat),
    {
        self.inner = self.inner.clone() >> rhs;
    }
}

} // verus!
