use const_num_traits::ops::bits::{BitsPrecision, WithPrecision};
use const_num_traits::ops::carrying::CarryingMul;
use const_num_traits::ops::checked::{CheckedAdd, CheckedMul};
use const_num_traits::ops::overflowing::{OverflowingAdd, OverflowingMul, OverflowingSub};
use const_num_traits::ops::wrapping::{WrappingAdd, WrappingMul, WrappingSub};
use const_num_traits::{BorrowingSub, HasPersonality, Nct, One, Parity, Zero};
use core::cmp::Ordering;
use fixed_width_biguint::{BigUint, FixedWidthBigUint};
use modmath_cios::CiosRowOps;

fn fw(value: u128, n: usize) -> FixedWidthBigUint {
    FixedWidthBigUint::new(BigUint::from(value), n)
}

fn same(x: &FixedWidthBigUint, value: u128, n: usize) {
    assert_eq!(x.as_biguint(), &BigUint::from(value));
    assert_eq!(x.n_limbs(), n);
}

const W: u128 = 1 << 64;

#[test]
fn construction_and_access() {
    let x = FixedWidthBigUint::from_u64(9, 3);
    same(&x, 9, 3);
    assert_eq!(x.into_biguint(), BigUint::from(9u8));
    same(&FixedWidthBigUint::default(), 0, 1);
    same(&FixedWidthBigUint::zero(), 0, 1);
    same(&FixedWidthBigUint::one(), 1, 1);
}

#[test]
fn identities_can_be_set_and_asked_for() {
    let mut x = fw(5, 3);
    assert!(!x.is_zero());
    assert!(!x.is_one());
    x.set_one();
    assert!(x.is_one());
    same(&x, 1, 3);
    x.set_zero();
    assert!(x.is_zero());
    same(&x, 0, 3);
    assert!(!fw(W + 1, 2).is_one());
}

#[test]
fn equality_and_order_ignore_the_width() {
    assert_eq!(fw(5, 1), fw(5, 9));
    assert_ne!(fw(5, 1), fw(6, 1));
    assert_eq!(fw(5, 9).cmp(&fw(6, 1)), Ordering::Less);
    assert_eq!(fw(7, 1).cmp(&fw(6, 9)), Ordering::Greater);
    assert_eq!(fw(6, 1).cmp(&fw(6, 9)), Ordering::Equal);
    assert!(fw(5, 9) < fw(W, 1));
    assert_eq!(fw(W, 1).partial_cmp(&fw(3, 4)), Some(Ordering::Greater));
}

#[test]
fn conversions_take_the_least_width() {
    same(&FixedWidthBigUint::from(0u8), 0, 1);
    same(&FixedWidthBigUint::from(7u16), 7, 1);
    same(&FixedWidthBigUint::from(7u32), 7, 1);
    same(&FixedWidthBigUint::from(u64::MAX), W - 1, 1);
    same(&FixedWidthBigUint::from(7usize), 7, 1);
    same(&FixedWidthBigUint::from(W), W, 2);
    same(&FixedWidthBigUint::from(W - 1), W - 1, 1);
}

#[test]
fn widths_in_bits() {
    assert_eq!((&fw(1, 3)).bits_precision(), 192);
    assert_eq!(fw(1, 0).bits_precision(), 0);
    assert_eq!(fw(1, 1 << 26).bits_precision(), 0);
    same(&fw(5, 2).widen_to_precision(4096), 5, 2);
    same(&fw(5, 2).widen_to_precision_of(&fw(1, 7)), 5, 7);
    same(&fw(5, 7).widen_to_precision_of(&fw(1, 2)), 5, 2);
    same(&FixedWidthBigUint::zero_with_precision(65), 0, 2);
    same(&FixedWidthBigUint::zero_with_precision(64), 0, 1);
    same(&FixedWidthBigUint::one_with_precision(0), 1, 0);
    same(&FixedWidthBigUint::one_with_precision(u32::MAX), 1, 1 << 26);
    same(&FixedWidthBigUint::one_with_precision_of(&fw(9, 5)), 1, 5);
}

#[test]
fn precision_gives_the_width_back() {
    for n in 0..5 {
        let bits = fw(3, n).bits_precision();
        assert_eq!(FixedWidthBigUint::zero_with_precision(bits).n_limbs(), n);
    }
}

#[test]
fn operators_take_the_wider_width() {
    same(&(fw(20, 1) + fw(6, 3)), 26, 3);
    same(&(fw(20, 3) - fw(6, 1)), 14, 3);
    same(&(fw(20, 1) * fw(6, 2)), 120, 2);
    same(&(fw(20, 1) / fw(6, 2)), 3, 2);
    same(&(fw(20, 1) % fw(6, 2)), 2, 2);
    same(&(fw(20, 1) & fw(6, 2)), 4, 2);
    same(&(fw(20, 1) | fw(6, 2)), 22, 2);
    same(&(fw(20, 1) ^ fw(6, 2)), 18, 2);
    same(&(fw(20, 2) >> 2), 5, 2);
    same(&(fw(20, 2) << 2), 80, 2);
}

#[test]
fn operators_on_references() {
    let (a, b) = (fw(20, 1), fw(6, 2));
    same(&(&a + &b), 26, 2);
    same(&(&a + b.clone()), 26, 2);
    same(&(&a - b.clone()), 14, 2);
    same(&(&a * &b), 120, 2);
    same(&(a.clone() / &b), 3, 2);
    same(&(&a / b.clone()), 3, 2);
    same(&(&a / &b), 3, 2);
    same(&(a.clone() % &b), 2, 2);
    same(&(&a % &b), 2, 2);
    same(&(&a & &b), 4, 2);
    same(&(&a | &b), 22, 2);
    same(&(&a ^ &b), 18, 2);
}

#[test]
fn sums_and_products_outgrow_the_width() {
    same(&(fw(W - 1, 1) + fw(1, 1)), W, 1);
    same(&(fw(W - 1, 1) * fw(2, 1)), 2 * W - 2, 1);
    same(&(fw(1, 1) << 100), 1 << 100, 1);
}

#[test]
fn assigning_operators_keep_the_width() {
    let mut x = fw(23, 2);
    x %= fw(9, 5);
    same(&x, 5, 2);
    x %= &fw(3, 1);
    same(&x, 2, 2);
    let mut y = fw(W, 3);
    y >>= 60;
    same(&y, 16, 3);
}

#[test]
fn wrapping_addition_masks_to_the_wider_width() {
    same(&fw(W - 1, 1).wrapping_add(fw(5, 1)), 4, 1);
    same(&fw(W - 1, 1).wrapping_add(fw(5, 2)), W + 4, 2);
    same(&(&fw(W - 1, 1)).wrapping_add(&fw(1, 1)), 0, 1);
    same(&fw(9, 0).wrapping_add(fw(1, 0)), 0, 0);
    same(&fw(9, 1).wrapping_add(fw(1, 1)), 10, 1);
}

#[test]
fn wrapping_subtraction_borrows_one_modulus() {
    same(&fw(3, 1).wrapping_sub(fw(5, 1)), W - 2, 1);
    same(&fw(5, 1).wrapping_sub(fw(3, 1)), 2, 1);
    same(&(&fw(0, 1)).wrapping_sub(&fw(1, 1)), W - 1, 1);
    // A difference that is not negative is not reduced.
    same(&fw(3 * W, 1).wrapping_sub(fw(1, 1)), 3 * W - 1, 1);
}

#[test]
fn wrapping_addition_undoes_wrapping_subtraction() {
    let (a, b) = (fw(3, 1), fw(10, 1));
    same(&a.clone().wrapping_sub(b.clone()).wrapping_add(b), 3, 1);
}

#[test]
fn subtraction_modulo_m() {
    let m = fw(17, 1);
    let d = fw(3, 1).wrapping_sub(fw(10, 1)).wrapping_add(m);
    same(&d, 10, 1);
    same(&fw(10, 1).wrapping_sub(fw(3, 1)), 7, 1);
}

#[test]
fn products_are_never_reduced_and_flags_stay_down() {
    same(&fw(W - 1, 1).wrapping_mul(fw(2, 1)), 2 * W - 2, 1);
    let (p, flag) = fw(W - 1, 1).overflowing_mul(fw(2, 1));
    same(&p, 2 * W - 2, 1);
    assert!(!flag);
    same(&fw(W - 1, 1).checked_mul(fw(2, 3)).unwrap(), 2 * W - 2, 3);
    same(&fw(W - 1, 1).checked_add(fw(1, 2)).unwrap(), W, 2);
    let (s, flag) = fw(W - 1, 1).overflowing_add(fw(2, 1));
    same(&s, 1, 1);
    assert!(!flag);
}

#[test]
fn overflowing_subtraction_flags_the_borrow() {
    let (d, flag) = fw(3, 1).overflowing_sub(fw(10, 1));
    same(&d, W - 7, 1);
    assert!(flag);
    let (d, flag) = fw(10, 1).overflowing_sub(fw(10, 1));
    same(&d, 0, 1);
    assert!(!flag);
}

#[test]
fn borrowing_subtraction_takes_the_borrow_in() {
    let (d, out) = fw(5, 1).borrowing_sub(fw(5, 1), true);
    same(&d, W - 1, 1);
    assert!(out);
    let (d, out) = fw(6, 1).borrowing_sub(fw(5, 1), true);
    same(&d, 0, 1);
    assert!(!out);
    let (d, out) = fw(6, 1).borrowing_sub(fw(5, 2), false);
    same(&d, 1, 2);
    assert!(!out);
    let (d, out) = fw(0, 1).borrowing_sub(fw(W - 1, 1), true);
    same(&d, 0, 1);
    assert!(out);
}

#[test]
fn borrows_chain_over_two_words() {
    // (1, 0) - (0, 1), high word first
    let (low, borrow) = fw(0, 1).borrowing_sub(fw(1, 1), false);
    let (high, out) = fw(1, 1).borrowing_sub(fw(0, 1), borrow);
    same(&low, W - 1, 1);
    same(&high, 0, 1);
    assert!(!out);
}

#[test]
fn carrying_multiplication_splits_at_the_width() {
    let (lo, hi) = fw(W - 1, 1).carrying_mul(fw(W - 1, 1), fw(W - 1, 1));
    same(&lo, 0, 1);
    same(&hi, W - 1, 1);
    let (lo, hi) = fw(W - 1, 1).carrying_mul_add(fw(W - 1, 1), fw(W - 1, 1), fw(W - 1, 1));
    same(&lo, W - 1, 1);
    same(&hi, W - 1, 1);
    // The carry's own width plays no part.
    let (lo, hi) = fw(W - 1, 1).carrying_mul(fw(2, 1), fw(3, 8));
    same(&lo, 1, 1);
    same(&hi, 2, 1);
}

#[test]
fn division_recombines() {
    let (a, b) = (fw(1000 * W + 17, 2), fw(W + 3, 2));
    let back = (&a / &b) * &b + (&a % &b);
    assert_eq!(back, a);
}

#[test]
fn subtraction_undoes_addition() {
    let (a, b) = (fw(W - 1, 1), fw(12, 2));
    same(&(a + &b - b), W - 1, 2);
}

#[test]
fn shifts_cancel() {
    same(&(fw(W + 5, 2) << 131 >> 131), W + 5, 2);
}

#[test]
fn one_is_neutral() {
    same(&(FixedWidthBigUint::one() * fw(W + 5, 2)), W + 5, 2);
    same(&(fw(W + 5, 2) + FixedWidthBigUint::zero()), W + 5, 2);
}

#[test]
fn parity_of_wide_numbers() {
    assert!(Parity::is_even(fw(W, 2)));
    assert!(Parity::is_odd(&fw(W + 1, 2)));
    assert!(Parity::is_even(&fw(0, 1)));
}

#[test]
fn words_past_the_end_are_zero() {
    let x = fw(3 * W + 8, 1);
    assert_eq!(x.word_count(), 1);
    assert_eq!(x.word(0), 8);
    assert_eq!(x.word(1), 3);
    assert_eq!(x.word(2), 0);
}

#[test]
fn clones_keep_number_and_width() {
    let x = fw(3 * W + 8, 4);
    same(&x.clone(), 3 * W + 8, 4);
}

fn personality_is_nct<T: HasPersonality<P = Nct>>() -> bool {
    true
}

#[test]
fn timing_depends_on_values() {
    assert!(personality_is_nct::<FixedWidthBigUint>());
}

#[test]
fn text_shows_number_and_width() {
    assert_eq!(fw(12345, 4).to_text(), "FixedWidthBigUint(12345, n=4)");
    assert_eq!(fw(0, 10).to_text(), "FixedWidthBigUint(0, n=10)");
    assert_eq!(fw(W, 2).to_text(), "FixedWidthBigUint(18446744073709551616, n=2)");
}

#[test]
fn debug_form_shows_number_and_width() {
    assert_eq!(format!("{:?}", fw(12345, 4)), "FixedWidthBigUint(12345, n=4)");
    assert_eq!(format!("[{:?}]", fw(0, 0)), "[FixedWidthBigUint(0, n=0)]");
    assert_eq!(format!("{:?}", BigUint::from(W + 9)), "18446744073709551625");
}
