//! Natural numbers of any size.
//!
//! The conversion and operator traits of vstd offer one equation between values of the type. Two
//! values that hold the same number need not be the same value, so that equation is not taken up:
//! each conversion and operator states in its own `ensures` which number its result is, and the
//! `_req` functions say on which operands an operator is defined.
use vstd::prelude::*;
use core::cmp::Ordering;
use core::ops::{Add, BitAnd, BitOr, BitXor, Div, Mul, Rem, Shl, Shr, Sub};
use num_traits::Zero;
use vstd::arithmetic::power2::pow2;
use vstd::std_specs::cmp::{PartialEqSpecImpl, PartialOrdSpecImpl};
use vstd::std_specs::convert::FromSpecImpl;
use vstd::std_specs::ops::{
    AddSpecImpl, BitAndSpecImpl, BitOrSpecImpl, BitXorSpecImpl, DivSpecImpl, MulSpecImpl,
    RemSpecImpl, ShlSpecImpl, ShrSpecImpl, SubSpecImpl,
};
use crate::bitwise::BitOp;
use crate::bytes::{be_bytes, byte_len, le_bytes, limbs_from_bytes, limbs_to_bytes, reversed};
use crate::division;
use crate::limbs;
use crate::limbs::normalized;
use crate::positional::{
    lemma_digit_at, lemma_radix_values, lemma_value_lower, lemma_value_push, lemma_weight_monotone,
    lemma_weight_pos, value, weight,
};
use crate::rows;
use crate::rows::{row_sum, shifted_row_len, shifted_row_sum, with_low_limbs};

verus! {

/// A natural number of any size. Its view is the number.
#[derive(Hash)]
pub struct BigUint {
    data: Vec<u64>,
}

impl View for BigUint {
    type V = nat;

    closed spec fn view(&self) -> nat {
        value(self.data@)
    }
}

/// How two numbers compare.
pub open spec fn order_of(a: nat, b: nat) -> Ordering {
    if a < b {
        Ordering::Less
    } else if a == b {
        Ordering::Equal
    } else {
        Ordering::Greater
    }
}

/// The least number of limbs that hold `v`.
pub open spec fn limb_len(v: nat) -> nat
    decreases v,
{
    if v == 0 {
        0
    } else {
        1 + limb_len(v / 0x1_0000_0000_0000_0000)
    }
}

/// A number fits `n` limbs exactly if it is below the weight of position `n`.
pub proof fn lemma_limb_len_bound(v: nat, n: nat)
    ensures
        limb_len(v) <= n <==> v < weight::<u64>(n),
    decreases v,
{
    lemma_radix_values();
    if v == 0 {
        lemma_weight_pos::<u64>(n);
    } else if n > 0 {
        let k = (n - 1) as nat;
        lemma_limb_len_bound(v / 0x1_0000_0000_0000_0000, k);
        crate::positional::lemma_weight_step::<u64>(k);
    }
}

impl BigUint {
    /// No limb is wasted on a leading zero.
    #[verifier::type_invariant]
    closed spec fn well_formed(self) -> bool {
        normalized(self.data@)
    }

    /// How many limbs the number takes.
    pub fn limb_len(&self) -> (n: usize)
        ensures
            n == limb_len(self@),
    {
        proof {
            use_type_invariant(self);
            let k = self.data@.len();
            crate::positional::lemma_value_bound(self.data@);
            lemma_limb_len_bound(self@, k);
            if k > 0 {
                lemma_value_lower(self.data@);
                lemma_limb_len_bound(self@, (k - 1) as nat);
            }
        }
        self.data.len()
    }

    /// The limb at position `i`, which is zero past the last one.
    pub fn limb(&self, i: usize) -> (r: u64)
        ensures
            r == (self@ / weight::<u64>(i as nat)) % 0x1_0000_0000_0000_0000,
    {
        proof {
            lemma_radix_values();
            lemma_digit_at(self.data@, i as nat);
        }
        limbs::limb(self.data.as_slice(), i)
    }

    /// Whether the number is one.
    pub fn is_one(&self) -> (r: bool)
        ensures
            r == (self@ == 1),
    {
        proof {
            use_type_invariant(self);
            lemma_radix_values();
            let s = self.data@;
            if s.len() == 0 {
            } else if s.len() == 1 {
                assert(s.drop_last() =~= Seq::<u64>::empty());
                assert(value(s.drop_last()) == 0);
                assert(s[0] * 1 == s[0]);
            } else {
                lemma_value_lower(s);
                lemma_weight_monotone::<u64>(1, (s.len() - 1) as nat);
            }
        }
        self.data.len() == 1 && self.data[0] == 1
    }

    /// Whether the number is odd.
    pub fn is_odd(&self) -> (r: bool)
        ensures
            r == (self@ % 2 == 1),
    {
        let low = self.limb(0);
        proof {
            lemma_radix_values();
            assert(low & 1 == low % 2) by (bit_vector);
        }
        low & 1 == 1
    }

    /// How the number compares to another.
    pub fn cmp(&self, other: &Self) -> (r: Ordering)
        ensures
            r == order_of(self@, other@),
    {
        if limbs::less(self.data.as_slice(), other.data.as_slice()) {
            Ordering::Less
        } else if limbs::less(other.data.as_slice(), self.data.as_slice()) {
            Ordering::Greater
        } else {
            Ordering::Equal
        }
    }

    /// The bytes of the number, least significant byte first, without leading zeros but for the
    /// one byte of zero itself.
    pub fn to_bytes_le(&self) -> (r: Vec<u8>)
        ensures
            r@ == if self@ == 0 {
                seq![0u8]
            } else {
                le_bytes(self@, byte_len(self@))
            },
    {
        let mut bytes = limbs_to_bytes(self.data.as_slice());
        if bytes.len() == 0 {
            bytes.push(0);
        }
        bytes
    }

    /// The bytes of the number, most significant byte first, without leading zeros but for the
    /// one byte of zero itself.
    pub fn to_bytes_be(&self) -> (r: Vec<u8>)
        ensures
            r@ == if self@ == 0 {
                seq![0u8]
            } else {
                be_bytes(self@, byte_len(self@))
            },
    {
        let bytes = self.to_bytes_le();
        proof {
            assert(seq![0u8].reverse() =~= seq![0u8]);
        }
        reversed(bytes.as_slice())
    }

    /// The number that bytes stand for, least significant byte first.
    pub fn from_bytes_le(bytes: &[u8]) -> (r: Self)
        ensures
            r@ == value(bytes@),
    {
        BigUint { data: limbs_from_bytes(bytes) }
    }

    /// The number that bytes stand for, most significant byte first.
    pub fn from_bytes_be(bytes: &[u8]) -> (r: Self)
        ensures
            r@ == value(bytes@.reverse()),
    {
        let bytes = reversed(bytes);
        BigUint { data: limbs_from_bytes(bytes.as_slice()) }
    }

    /// Quotient and remainder.
    pub fn div_rem(&self, divisor: &Self) -> (r: (Self, Self))
        requires
            divisor@ != 0,
        ensures
            r.0@ == self@ / divisor@,
            r.1@ == self@ % divisor@,
    {
        proof {
            use_type_invariant(divisor);
        }
        let (q, rem) = division::div_rem(self.data.as_slice(), divisor.data.as_slice());
        (BigUint { data: q }, BigUint { data: rem })
    }

    /// Quotient and remainder by one limb.
    pub fn div_rem_limb(&self, divisor: u64) -> (r: (Self, u64))
        requires
            divisor != 0,
        ensures
            r.0@ == self@ / (divisor as nat),
            r.1 == self@ % (divisor as nat),
    {
        let (q, rem) = limbs::div_limb(self.data.as_slice(), divisor);
        (BigUint { data: q }, rem)
    }

    /// Adds `scalar` times the low `n` limbs of `m`, and `carry_in`, to the low `n` limbs, and
    /// returns the carry out of them.
    pub(crate) fn add_row(&mut self, scalar: u64, m: &Self, n: usize, carry_in: u64) -> (carry: u64)
        ensures
            ({
                let sum = row_sum(scalar as nat, m@, old(self)@, n as nat, carry_in as nat);
                &&& final(self)@ == with_low_limbs(
                    old(self)@,
                    n as nat,
                    sum % weight::<u64>(n as nat),
                )
                &&& carry == sum / weight::<u64>(n as nat)
            }),
    {
        let mut data: Vec<u64> = Vec::new();
        core::mem::swap(&mut data, &mut self.data);
        let carry = rows::add_row(&mut data, scalar, m.data.as_slice(), n, carry_in);
        limbs::trim(&mut data);
        self.data = data;
        carry
    }

    /// Adds `scalar` times the low `n` limbs of `m` to the low `n` limbs with the limb `hi` above
    /// them, drops the lowest limb, and returns the carry out of the low `n` limbs.
    pub(crate) fn add_row_shifted(
        &mut self,
        scalar: u64,
        m: &Self,
        n: usize,
        hi: u64,
    ) -> (carry: u64)
        ensures
            ({
                let sum = shifted_row_sum(scalar as nat, m@, old(self)@, n as nat, hi as nat);
                &&& final(self)@ == if n == 0 {
                    old(self)@
                } else {
                    with_low_limbs(old(self)@, n as nat, sum % weight::<u64>(n as nat))
                }
                &&& carry == sum / weight::<u64>(shifted_row_len(n as nat))
            }),
    {
        let mut data: Vec<u64> = Vec::new();
        core::mem::swap(&mut data, &mut self.data);
        let carry = rows::add_row_shifted(&mut data, scalar, m.data.as_slice(), n, hi);
        limbs::trim(&mut data);
        self.data = data;
        carry
    }

    /// The number that a double-width word holds.
    fn from_wide(v: u128) -> (r: Self)
        ensures
            r@ == v,
    {
        let (lo, hi) = limbs::split(v);
        let mut data: Vec<u64> = Vec::new();
        proof {
            lemma_radix_values();
            lemma_value_push(data@, lo);
            lemma_value_push(data@.push(lo), hi);
            assert(lo * 1 == lo);
        }
        data.push(lo);
        data.push(hi);
        limbs::trim(&mut data);
        BigUint { data }
    }
}

impl Clone for BigUint {
    fn clone(&self) -> (r: Self)
        ensures
            r@ == self@,
    {
        proof {
            use_type_invariant(self);
        }
        let data = limbs::copy_from(self.data.as_slice(), 0);
        proof {
            assert(self.data@.skip(0) =~= self.data@);
        }
        BigUint { data }
    }
}

impl PartialEqSpecImpl for BigUint {
    open spec fn obeys_eq_spec() -> bool {
        true
    }

    open spec fn eq_spec(&self, other: &Self) -> bool {
        self@ == other@
    }
}

impl PartialEq for BigUint {
    fn eq(&self, other: &Self) -> (r: bool) {
        limbs::equal(self.data.as_slice(), other.data.as_slice())
    }
}

impl Eq for BigUint {

}

impl PartialOrdSpecImpl for BigUint {
    open spec fn obeys_partial_cmp_spec() -> bool {
        true
    }

    open spec fn partial_cmp_spec(&self, other: &Self) -> Option<Ordering> {
        Some(order_of(self@, other@))
    }
}

impl PartialOrd for BigUint {
    fn partial_cmp(&self, other: &Self) -> (r: Option<Ordering>) {
        Some(self.cmp(other))
    }
}

impl Default for BigUint {
    fn default() -> (r: Self)
        ensures
            r@ == 0,
    {
        BigUint { data: Vec::new() }
    }
}

impl Zero for BigUint {
    fn zero() -> (r: Self)
        ensures
            r@ == 0,
    {
        BigUint { data: Vec::new() }
    }

    fn is_zero(&self) -> (r: bool)
        ensures
            r == (self@ == 0),
    {
        proof {
            use_type_invariant(self);
            if self.data@.len() > 0 {
                lemma_value_lower(self.data@);
                lemma_weight_pos::<u64>((self.data@.len() - 1) as nat);
            }
        }
        self.data.len() == 0
    }
}

impl FromSpecImpl<u8> for BigUint {
    open spec fn obeys_from_spec() -> bool {
        false
    }

    open spec fn from_spec(v: u8) -> Self {
        arbitrary()
    }
}

impl From<u8> for BigUint {
    fn from(v: u8) -> (r: Self)
        ensures
            r@ == v,
    {
        BigUint::from_wide(v as u128)
    }
}

impl FromSpecImpl<u16> for BigUint {
    open spec fn obeys_from_spec() -> bool {
        false
    }

    open spec fn from_spec(v: u16) -> Self {
        arbitrary()
    }
}

impl From<u16> for BigUint {
    fn from(v: u16) -> (r: Self)
        ensures
            r@ == v,
    {
        BigUint::from_wide(v as u128)
    }
}

impl FromSpecImpl<u32> for BigUint {
    open spec fn obeys_from_spec() -> bool {
        false
    }

    open spec fn from_spec(v: u32) -> Self {
        arbitrary()
    }
}

impl From<u32> for BigUint {
    fn from(v: u32) -> (r: Self)
        ensures
            r@ == v,
    {
        BigUint::from_wide(v as u128)
    }
}

impl FromSpecImpl<u64> for BigUint {
    open spec fn obeys_from_spec() -> bool {
        false
    }

    open spec fn from_spec(v: u64) -> Self {
        arbitrary()
    }
}

impl From<u64> for BigUint {
    fn from(v: u64) -> (r: Self)
        ensures
            r@ == v,
    {
        BigUint::from_wide(v as u128)
    }
}

impl FromSpecImpl<u128> for BigUint {
    open spec fn obeys_from_spec() -> bool {
        false
    }

    open spec fn from_spec(v: u128) -> Self {
        arbitrary()
    }
}

impl From<u128> for BigUint {
    fn from(v: u128) -> (r: Self)
        ensures
            r@ == v,
    {
        BigUint::from_wide(v)
    }
}

impl FromSpecImpl<usize> for BigUint {
    open spec fn obeys_from_spec() -> bool {
        false
    }

    open spec fn from_spec(v: usize) -> Self {
        arbitrary()
    }
}

impl From<usize> for BigUint {
    fn from(v: usize) -> (r: Self)
        ensures
            r@ == v,
    {
        BigUint::from_wide(v as u128)
    }
}

impl AddSpecImpl for BigUint {
    open spec fn obeys_add_spec() -> bool {
        false
    }

    open spec fn add_req(self, rhs: Self) -> bool {
        true
    }

    open spec fn add_spec(self, rhs: Self) -> Self {
        arbitrary()
    }
}

impl Add for BigUint {
    type Output = Self;

    fn add(self, rhs: Self) -> (r: Self)
        ensures
            r@ == self@ + rhs@,
    {
        BigUint { data: limbs::add_limbs(self.data.as_slice(), rhs.data.as_slice()) }
    }
}

impl SubSpecImpl for BigUint {
    open spec fn obeys_sub_spec() -> bool {
        false
    }

    open spec fn sub_req(self, rhs: Self) -> bool {
        rhs@ <= self@
    }

    open spec fn sub_spec(self, rhs: Self) -> Self {
        arbitrary()
    }
}

impl Sub for BigUint {
    type Output = Self;

    fn sub(self, rhs: Self) -> (r: Self)
        ensures
            r@ == self@ - rhs@,
    {
        BigUint { data: limbs::sub_limbs(self.data.as_slice(), rhs.data.as_slice()) }
    }
}

impl MulSpecImpl for BigUint {
    open spec fn obeys_mul_spec() -> bool {
        false
    }

    open spec fn mul_req(self, rhs: Self) -> bool {
        true
    }

    open spec fn mul_spec(self, rhs: Self) -> Self {
        arbitrary()
    }
}

impl Mul for BigUint {
    type Output = Self;

    fn mul(self, rhs: Self) -> (r: Self)
        ensures
            r@ == self@ * rhs@,
    {
        BigUint { data: limbs::mul_limbs(self.data.as_slice(), rhs.data.as_slice()) }
    }
}

impl DivSpecImpl for BigUint {
    open spec fn obeys_div_spec() -> bool {
        false
    }

    open spec fn div_req(self, rhs: Self) -> bool {
        rhs@ != 0
    }

    open spec fn div_spec(self, rhs: Self) -> Self {
        arbitrary()
    }
}

impl Div for BigUint {
    type Output = Self;

    fn div(self, rhs: Self) -> (r: Self)
        ensures
            r@ == self@ / rhs@,
    {
        let (q, _rem) = self.div_rem(&rhs);
        q
    }
}

impl RemSpecImpl for BigUint {
    open spec fn obeys_rem_spec() -> bool {
        false
    }

    open spec fn rem_req(self, rhs: Self) -> bool {
        rhs@ != 0
    }

    open spec fn rem_spec(self, rhs: Self) -> Self {
        arbitrary()
    }
}

impl Rem for BigUint {
    type Output = Self;

    fn rem(self, rhs: Self) -> (r: Self)
        ensures
            r@ == self@ % rhs@,
    {
        let (_q, rem) = self.div_rem(&rhs);
        rem
    }
}

impl BitAndSpecImpl for BigUint {
    open spec fn obeys_bitand_spec() -> bool {
        false
    }

    open spec fn bitand_req(self, rhs: Self) -> bool {
        true
    }

    open spec fn bitand_spec(self, rhs: Self) -> Self {
        arbitrary()
    }
}

impl BitAnd for BigUint {
    type Output = Self;

    fn bitand(self, rhs: Self) -> (r: Self)
        ensures
            r@ == BitOp::And.on_nats(self@, rhs@),
    {
        BigUint { data: limbs::bitwise(BitOp::And, self.data.as_slice(), rhs.data.as_slice()) }
    }
}

impl BitOrSpecImpl for BigUint {
    open spec fn obeys_bitor_spec() -> bool {
        false
    }

    open spec fn bitor_req(self, rhs: Self) -> bool {
        true
    }

    open spec fn bitor_spec(self, rhs: Self) -> Self {
        arbitrary()
    }
}

impl BitOr for BigUint {
    type Output = Self;

    fn bitor(self, rhs: Self) -> (r: Self)
        ensures
            r@ == BitOp::Or.on_nats(self@, rhs@),
    {
        BigUint { data: limbs::bitwise(BitOp::Or, self.data.as_slice(), rhs.data.as_slice()) }
    }
}

impl BitXorSpecImpl for BigUint {
    open spec fn obeys_bitxor_spec() -> bool {
        false
    }

    open spec fn bitxor_req(self, rhs: Self) -> bool {
        true
    }

    open spec fn bitxor_spec(self, rhs: Self) -> Self {
        arbitrary()
    }
}

impl BitXor for BigUint {
    type Output = Self;

    fn bitxor(self, rhs: Self) -> (r: Self)
        ensures
            r@ == BitOp::Xor.on_nats(self@, rhs@),
    {
        BigUint { data: limbs::bitwise(BitOp::Xor, self.data.as_slice(), rhs.data.as_slice()) }
    }
}

impl ShlSpecImpl<usize> for BigUint {
    open spec fn obeys_shl_spec() -> bool {
        false
    }

    open spec fn shl_req(self, rhs: usize) -> bool {
        true
    }

    open spec fn shl_spec(self, rhs: usize) -> Self {
        arbitrary()
    }
}

impl Shl<usize> for BigUint {
    type Output = Self;

    fn shl(self, rhs: usize) -> (r: Self)
        ensures
            r@ == self@ * pow2(rhs as nat),
    {
        BigUint { data: limbs::shl(self.data.as_slice(), rhs) }
    }
}

impl ShrSpecImpl<usize> for BigUint {
    open spec fn obeys_shr_spec() -> bool {
        false
    }

    open spec fn shr_req(self, rhs: usize) -> bool {
        true
    }

    open spec fn shr_spec(self, rhs: usize) -> Self {
        arbitrary()
    }
}

impl Shr<usize> for BigUint {
    type Output = Self;

    fn shr(self, rhs: usize) -> (r: Self)
        ensures
            r@ == self@ / pow2(rhs as nat),
    {
        BigUint { data: limbs::shr(self.data.as_slice(), rhs) }
    }
}

} // verus!
