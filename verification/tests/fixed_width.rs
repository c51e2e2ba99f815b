use const_num_traits::ops::bits::BitsPrecision;
use const_num_traits::ops::carrying::CarryingMul;
use const_num_traits::ops::overflowing::{OverflowingAdd, OverflowingSub};
use const_num_traits::ops::wrapping::{WrappingAdd, WrappingSub};
use const_num_traits::{Parity, WithPrecision, Zero};
use fixed_width_biguint::limbs::LIMB_BITS;
use fixed_width_biguint::{BigUint, FixedWidthBigUint};
use modmath_cios::CiosRowOps;

fn fw(value: u64, n: usize) -> FixedWidthBigUint {
    FixedWidthBigUint::from_u64(value, n)
}

#[test]
fn zero_plus_x_equals_x() {
    // The clone idiom of the extended Euclidean algorithm: zero(0) + x(k) must equal x(k).
    let zero = FixedWidthBigUint::zero();
    let x = fw(12345, 4);
    let result = zero + x.clone();
    assert_eq!(result, x);
    assert_eq!(result.n_limbs(), 4);
}

#[test]
fn word_count_stable_after_sub() {
    let a = fw(100, 2);
    let b = fw(99, 2);
    let c = a - b;
    assert_eq!(c.n_limbs(), 2);
    assert_eq!(c.word_count(), 2);
    assert_eq!(c.word(0), 1);
    assert_eq!(c.word(1), 0);
}

#[test]
fn bits_precision() {
    assert_eq!(fw(0, 4).bits_precision(), 4 * LIMB_BITS as u32);
}

#[test]
fn wrapping_sub_underflow() {
    let zero = fw(0, 1);
    let one = fw(1, 1);
    let result = zero.wrapping_sub(one);
    assert_eq!(result.word(0), u64::MAX);
}

#[test]
fn wrapping_add_masks_consistent_with_sub() {
    // wrapping_add masks to the declared width, so that diff.wrapping_add(m) corrects the 2^width
    // that wrapping_sub(a, b) puts in when a < b.
    let max = FixedWidthBigUint::new(
        (BigUint::from(1u32) << LIMB_BITS) - BigUint::from(1u32),
        1,
    );
    let one = fw(1, 1);
    // MAX + 1 wraps to 0
    let result = max.clone().wrapping_add(one.clone());
    assert_eq!(result.word(0), 0);
    // overflowing_add is wrapping_add with a flag that is always false
    let (r2, flag) = max.overflowing_add(one);
    assert!(!flag);
    assert_eq!(r2.word(0), 0);
}

#[test]
fn overflowing_sub_detects_underflow() {
    let (_, borrow) = fw(3, 1).overflowing_sub(fw(10, 1));
    assert!(borrow);
    let (diff, no_borrow) = fw(10, 1).overflowing_sub(fw(3, 1));
    assert!(!no_borrow);
    assert_eq!(diff.word(0), 7);
}

#[test]
fn carrying_mul_splits() {
    let a = fw(u32::MAX as u64, 1);
    let b = fw(u32::MAX as u64, 1);
    let (lo, hi) = a.carrying_mul(b, fw(0, 1));
    let expected: u64 = (u32::MAX as u64) * (u32::MAX as u64);
    assert_eq!(lo.word(0), expected);
    assert_eq!(hi.word(0), 0);
}

#[test]
fn zero_with_precision_of() {
    let modulus = fw(0xdeadbeef, 4);
    let z = FixedWidthBigUint::zero_with_precision_of(&modulus);
    assert!(z.is_zero());
    assert_eq!(z.n_limbs(), 4);
}

#[test]
fn parity() {
    assert!(Parity::is_odd(fw(7, 1)));
    assert!(Parity::is_even(fw(8, 1)));
    assert!(Parity::is_odd(&fw(7, 1)));
}

#[test]
fn from_u8_minimal_width() {
    let x = FixedWidthBigUint::from(5u8);
    assert_eq!(x.word(0), 5);
    assert_eq!(x.n_limbs(), 1);
}

#[test]
fn ref_binops() {
    let a = fw(10, 2);
    let b = fw(3, 2);
    // &T - &T
    let r1 = &a - &b;
    assert_eq!(r1.word(0), 7);
    // T + &T
    let r2 = a.clone() + &b;
    assert_eq!(r2.word(0), 13);
    // T - &T
    let r3 = a.clone() - &b;
    assert_eq!(r3.word(0), 7);
    // T * &T
    let r4 = a.clone() * &b;
    assert_eq!(r4.word(0), 30);
}
