use fixed_width_biguint::{BigUint, FixedWidthBigUint};
use modmath_cios::CiosRowOps;

fn fw(value: u128, n: usize) -> FixedWidthBigUint {
    FixedWidthBigUint::new(BigUint::from(value), n)
}

const W: u128 = 1 << 64;

#[test]
fn a_row_adds_the_product_and_the_carry() {
    let mut acc = fw(7, 2);
    let carry = FixedWidthBigUint::mul_acc_row(3, &fw(5 * W + 4, 2), &mut acc, 1);
    assert_eq!(acc, fw(15 * W + 20, 2));
    assert_eq!(carry, 0);
    assert_eq!(acc.n_limbs(), 2);
}

#[test]
fn a_row_carries_out_of_the_width() {
    let mut acc = fw(W - 1, 1);
    let carry = FixedWidthBigUint::mul_acc_row(u64::MAX, &fw(W - 1, 1), &mut acc, u64::MAX);
    assert_eq!(acc, fw(W - 1, 1));
    assert_eq!(carry, u64::MAX);
}

#[test]
fn a_row_grows_a_narrow_accumulator() {
    let mut acc = FixedWidthBigUint::default();
    let carry = FixedWidthBigUint::mul_acc_row(2, &fw((1 << 127) + 9, 2), &mut acc, 0);
    assert_eq!(carry, 1);
    assert_eq!(acc, fw(18, 1));
    assert_eq!(acc.n_limbs(), 1);
}

#[test]
fn a_row_leaves_higher_words() {
    let mut acc = fw(9 * W + 1, 2);
    // Only the low word of the multiplicand counts at a width of one.
    let carry = FixedWidthBigUint::mul_acc_row(4, &fw(8 * W + 3, 1), &mut acc, 0);
    assert_eq!(acc, fw(9 * W + 13, 2));
    assert_eq!(carry, 0);
}

#[test]
fn a_row_over_no_words() {
    let mut acc = fw(9, 1);
    let carry = FixedWidthBigUint::mul_acc_row(4, &fw(3, 0), &mut acc, 6);
    assert_eq!(acc, fw(9, 1));
    assert_eq!(carry, 6);
}

#[test]
fn a_row_can_leave_zero() {
    let mut acc = fw(W - 6, 1);
    let carry = FixedWidthBigUint::mul_acc_row(2, &fw(3, 1), &mut acc, 0);
    assert_eq!(acc, fw(0, 1));
    assert_eq!(carry, 1);
}

#[test]
fn a_shifted_row_drops_the_lowest_word() {
    let mut acc = fw(6 * W + 4, 2);
    let carry = FixedWidthBigUint::mul_acc_shift_row(2, &fw(3 * W + 6, 2), &mut acc, 5);
    // (6 W + 4 + 5 W^2 + 6 W + 12) / W
    assert_eq!(acc, fw(5 * W + 12, 2));
    assert_eq!(carry, 0);
}

#[test]
fn a_shifted_row_reports_the_fold() {
    let mut acc = fw(W - 1, 1);
    let carry = FixedWidthBigUint::mul_acc_shift_row(u64::MAX, &fw(W - 1, 1), &mut acc, u64::MAX);
    // (W - 1 + (W - 1)^2 + (W - 1) W) / W = 2 W - 2
    assert_eq!(acc, fw(W - 2, 1));
    assert_eq!(carry, 1);
}

#[test]
fn a_shifted_row_over_no_words() {
    let mut acc = fw(W - 1, 1);
    let carry = FixedWidthBigUint::mul_acc_shift_row(u64::MAX, &fw(W - 1, 0), &mut acc, 1);
    assert_eq!(acc, fw(W - 1, 1));
    assert_eq!(carry, 1);
}

#[test]
fn a_shifted_row_leaves_higher_words() {
    let mut acc = fw(9 * W + 1, 2);
    let carry = FixedWidthBigUint::mul_acc_shift_row(0, &fw(3, 1), &mut acc, 7);
    assert_eq!(acc, fw(9 * W + 7, 2));
    assert_eq!(carry, 0);
}

/// Montgomery multiplication: `a * b / 2^(64 n)` modulo the odd number `m`.
fn montgomery(
    a: &FixedWidthBigUint,
    b: &FixedWidthBigUint,
    m: &FixedWidthBigUint,
) -> FixedWidthBigUint {
    let m0 = m.word(0);
    let mut inverse: u64 = 1;
    for _ in 0..6 {
        inverse = inverse.wrapping_mul(2u64.wrapping_sub(m0.wrapping_mul(inverse)));
    }
    let n_prime = inverse.wrapping_neg();
    let mut acc = m.cios_accumulator();
    let mut acc_hi: u64 = 0;
    for i in 0..m.word_count() {
        let carry = FixedWidthBigUint::mul_acc_row(a.word(i), b, &mut acc, 0);
        let (top, over) = acc_hi.overflowing_add(carry);
        let q = acc.word(0).wrapping_mul(n_prime);
        let fold = FixedWidthBigUint::mul_acc_shift_row(q, m, &mut acc, top);
        acc_hi = fold + over as u64;
    }
    let whole = FixedWidthBigUint::new(
        acc.into_biguint() + (BigUint::from(acc_hi) << (64 * m.word_count())),
        m.n_limbs(),
    );
    if whole >= *m {
        whole - m
    } else {
        whole
    }
}

#[test]
fn rounds_make_a_montgomery_product() {
    let m = fw(0xf000_0000_0000_0000_0000_0000_0000_0c35, 2);
    let a = fw(0xe123_4567_89ab_cdef_0123_4567_89ab_cdef, 2);
    let b = fw(0x0fed_cba9_8765_4321_0fed_cba9_8765_4321, 2);
    let p = montgomery(&a, &b, &m);
    assert!(p < m);
    let scaled = (p << 128) % &m;
    assert_eq!(scaled, (&a * &b) % &m);
}
