//! Laws that relate the operations to each other, and that say of each what its result must
//! satisfy.
use vstd::prelude::*;
use core::cmp::Ordering;
use vstd::arithmetic::div_mod::{
    lemma_basic_div, lemma_fundamental_div_mod, lemma_fundamental_div_mod_converse, lemma_mod_bound,
    lemma_mod_multiples_vanish, lemma_small_mod,
};
use vstd::arithmetic::power2::{lemma_pow2_pos, pow2};
use vstd::std_specs::cmp::{PartialEqSpec, PartialOrdSpec};
use vstd::std_specs::ops::{
    AddSpec, BitAndSpec, BitOrSpec, BitXorSpec, DivSpec, MulSpec, RemSpec, ShlSpec, ShrSpec, SubSpec,
};
use crate::biguint::{lemma_limb_len_bound, limb_len, order_of, BigUint};
use crate::bitwise::{bit, lemma_bit, BitOp};
use crate::bytes::{
    be_bytes, byte_len, le_bytes, lemma_byte_len_bound, lemma_le_bytes_of_value,
    lemma_value_of_le_bytes,
};
use crate::fixed_width::FixedWidthBigUint;
use crate::model::{larger, limbs_for_bits, limbs_for_bytes, width_modulus, FixedWidth};
use crate::positional::{
    lemma_radix_values, lemma_value_push, lemma_weight_adds, lemma_weight_pos, lemma_weight_step,
    value, weight,
};
use crate::rows::with_low_limbs;
use crate::text::{decimal, shown};

verus! {

/// Adding zero on either side leaves the number, at the width of the other operand or of the zero,
/// whichever is wider.
pub proof fn law_zero_is_neutral(x: FixedWidth, n: nat)
    ensures
        FixedWidth::new(0, n).plus(x) == FixedWidth::new(x.value, larger(n, x.n_limbs)),
        x.plus(FixedWidth::new(0, n)) == FixedWidth::new(x.value, larger(n, x.n_limbs)),
        n <= x.n_limbs ==> FixedWidth::new(0, n).plus(x) == x,
{
}

/// Multiplying by one on either side leaves the number.
pub proof fn law_one_is_neutral(x: FixedWidth, n: nat)
    ensures
        FixedWidth::new(1, n).times(x) == FixedWidth::new(x.value, larger(n, x.n_limbs)),
        x.times(FixedWidth::new(1, n)) == FixedWidth::new(x.value, larger(n, x.n_limbs)),
{
    assert(1 * x.value == x.value && x.value * 1 == x.value);
}

/// A wrapping sum fits its width, and a sum that fits the width anyway is not changed by wrapping.
pub proof fn law_wrapping_sum_fits(a: FixedWidth, b: FixedWidth)
    ensures
        a.wrapping_plus(b).fits(),
        a.plus(b).fits() ==> a.wrapping_plus(b) == a.plus(b),
{
    let w = width_modulus(a.wider(b));
    lemma_pow2_pos(64 * a.wider(b));
    lemma_mod_bound((a.value + b.value) as int, w as int);
    if a.plus(b).fits() {
        lemma_small_mod(a.value + b.value, w);
    }
}

/// A subtrahend that fits the wider width always allows a borrow, as long as that width in bits
/// fits a machine word. Where the other operand fits as well, so does what comes of it.
pub proof fn law_borrow_is_enough(a: FixedWidth, b: FixedWidth, borrow: bool)
    requires
        b.value < width_modulus(a.wider(b)),
        a.wider(b) * 64 <= usize::MAX,
    ensures
        a.can_borrow(b, borrow),
        a.value < width_modulus(a.wider(b)) ==> a.borrowing_minus(b, borrow).fits(),
{
}

/// A borrow stands for one modulus: the result less the modulus that the borrow added is the
/// difference.
pub proof fn law_borrow_accounts_for_the_modulus(a: FixedWidth, b: FixedWidth, borrow: bool)
    requires
        a.can_borrow(b, borrow),
    ensures
        a.borrowing_minus(b, borrow).value - (if a.difference(b, borrow) < 0 {
            width_modulus(a.wider(b)) as int
        } else {
            0
        }) == a.value - b.value - (if borrow {
            1int
        } else {
            0
        }),
{
}

/// Borrows chain: subtracting low halves, then high halves with the borrow of the low ones,
/// subtracts numbers of twice the width.
pub proof fn law_borrows_chain(
    a_low: FixedWidth,
    a_high: FixedWidth,
    b_low: FixedWidth,
    b_high: FixedWidth,
    borrow: bool,
)
    requires
        a_low.wider(b_low) == a_high.wider(b_high),
        a_low.can_borrow(b_low, borrow),
        a_high.can_borrow(b_high, a_low.difference(b_low, borrow) < 0),
    ensures
        ({
            let w = width_modulus(a_low.wider(b_low));
            let carried = a_low.difference(b_low, borrow) < 0;
            a_low.borrowing_minus(b_low, borrow).value + a_high.borrowing_minus(
                b_high,
                carried,
            ).value * w - (if a_high.difference(b_high, carried) < 0 {
                (w * w) as int
            } else {
                0
            }) == (a_low.value + a_high.value * w) - (b_low.value + b_high.value * w) - (if borrow {
                1int
            } else {
                0
            })
        }),
{
    let w = width_modulus(a_low.wider(b_low)) as int;
    let carried = a_low.difference(b_low, borrow) < 0;
    let out = a_high.difference(b_high, carried) < 0;
    let r = a_high.borrowing_minus(b_high, carried).value as int;
    let c: int = if carried {
        1
    } else {
        0
    };
    let d: int = if out {
        1
    } else {
        0
    };
    assert(r == a_high.value - b_high.value - c + d * w);
    assert(r * w == a_high.value * w - b_high.value * w - c * w + d * (w * w)) by (nonlinear_arith)
        requires
            r == a_high.value - b_high.value - c + d * w,
    ;
}

/// Wrapping addition takes back what wrapping subtraction took, up to the modulus.
pub proof fn law_wrapping_add_undoes_sub(a: FixedWidth, b: FixedWidth)
    requires
        a.can_borrow(b, false),
    ensures
        a.borrowing_minus(b, false).wrapping_plus(b) == FixedWidth::low_part(a.value, a.wider(b)),
{
    let w = width_modulus(a.wider(b));
    lemma_pow2_pos(64 * a.wider(b));
    if a.value < b.value {
        lemma_mod_multiples_vanish(1, a.value as int, w as int);
    }
}

/// Subtraction modulo `m`: where the wrapping difference had to borrow, adding `m` with wrapping
/// removes the modulus of the width that the borrow put in, and leaves the difference modulo `m`.
pub proof fn law_modular_subtraction(a: FixedWidth, b: FixedWidth, m: FixedWidth)
    requires
        a.n_limbs == m.n_limbs,
        b.n_limbs == m.n_limbs,
        a.value < m.value,
        b.value <= m.value,
        m.value <= m.modulus(),
        m.n_limbs * 64 <= usize::MAX,
    ensures
        a.can_borrow(b, false),
        a.value >= b.value ==> a.borrowing_minus(b, false).value == (a.value - b.value)
            % m.value as int,
        a.value < b.value ==> a.borrowing_minus(b, false).wrapping_plus(m).value == (a.value
            - b.value) % m.value as int,
{
    let w = m.modulus();
    lemma_pow2_pos(64 * m.n_limbs);
    if a.value >= b.value {
        lemma_small_mod((a.value - b.value) as nat, m.value);
    } else {
        let c = (a.value - b.value + m.value) as nat;
        lemma_fundamental_div_mod_converse(a.value - b.value, m.value as int, -1, c as int);
        lemma_mod_multiples_vanish(1, c as int, w as int);
        lemma_small_mod(c, w);
    }
}

/// The two parts of a split number make it up again, and the low part fits the width.
pub proof fn law_parts_recombine(total: nat, n: nat)
    ensures
        FixedWidth::low_part(total, n).value + FixedWidth::high_part(total, n).value
            * width_modulus(n) == total,
        FixedWidth::low_part(total, n).fits(),
{
    let w = width_modulus(n);
    lemma_pow2_pos(64 * n);
    lemma_fundamental_div_mod(total as int, w as int);
    lemma_mod_bound(total as int, w as int);
    vstd::arithmetic::mul::lemma_mul_is_commutative(w as int, (total / w) as int);
}

/// A product of factors that fit a width, with two addends that fit it, fits twice that width: the
/// high part fits the width as well.
pub proof fn law_carrying_product_fits(a: nat, b: nat, carry: nat, addend: nat, n: nat)
    requires
        a < width_modulus(n),
        b < width_modulus(n),
        carry < width_modulus(n),
        addend < width_modulus(n),
    ensures
        FixedWidth::high_part(a * b + carry, n).fits(),
        FixedWidth::high_part(a * b + carry + addend, n).fits(),
{
    let w = width_modulus(n);
    assert(a * b + carry + addend < w * w) by (nonlinear_arith)
        requires
            a + 1 <= w,
            b + 1 <= w,
            carry + 1 <= w,
            addend + 1 <= w,
    ;
    vstd::arithmetic::div_mod::lemma_multiply_divide_lt((a * b + carry) as int, w as int, w as int);
    vstd::arithmetic::div_mod::lemma_multiply_divide_lt(
        (a * b + carry + addend) as int,
        w as int,
        w as int,
    );
}

/// Quotient times divisor plus remainder is the dividend, and the remainder is below the divisor.
pub proof fn law_division(a: FixedWidth, b: FixedWidth)
    requires
        b.value != 0,
    ensures
        a.quotient(b).times(b).plus(a.remainder(b)) == FixedWidth::new(a.value, a.wider(b)),
        a.remainder(b).value < b.value,
{
    lemma_fundamental_div_mod(a.value as int, b.value as int);
    lemma_mod_bound(a.value as int, b.value as int);
    vstd::arithmetic::mul::lemma_mul_is_commutative(
        b.value as int,
        (a.value / b.value) as int,
    );
}

/// Subtraction undoes addition.
pub proof fn law_sub_undoes_add(a: FixedWidth, b: FixedWidth)
    ensures
        a.plus(b).minus(b) == FixedWidth::new(a.value, a.wider(b)),
{
}

/// A shift down undoes a shift up.
pub proof fn law_shift_round_trip(x: FixedWidth, bits: nat)
    ensures
        x.shifted_up(bits).shifted_down(bits) == x,
{
    lemma_pow2_pos(bits);
    vstd::arithmetic::div_mod::lemma_div_by_multiple(x.value as int, pow2(bits) as int);
}

/// Each bit of a bitwise result depends on the two bits in its place alone.
pub proof fn law_bits(op: BitOp, a: FixedWidth, b: FixedWidth, i: nat)
    ensures
        bit(a.bitwise(op, b).value, i) == op.on_bits(bit(a.value, i), bit(b.value, i)),
{
    lemma_bit(op, a.value, b.value, i);
}

/// Comparison is by size, and so a total order in which only equal numbers compare equal.
pub proof fn law_total_order(a: nat, b: nat, c: nat)
    ensures
        order_of(a, b) == Ordering::Equal <==> a == b,
        order_of(a, b) == Ordering::Less <==> a < b,
        order_of(a, b) == Ordering::Greater <==> b < a,
        order_of(a, b) == Ordering::Less <==> order_of(b, a) == Ordering::Greater,
        order_of(a, b) == Ordering::Less && order_of(b, c) == Ordering::Less ==> order_of(a, c)
            == Ordering::Less,
{
}

/// Fixed-width numbers are equal under `==` exactly if they are the same natural number, whatever
/// their widths, and exactly if they compare as equal.
pub proof fn law_equality(a: FixedWidthBigUint, b: FixedWidthBigUint)
    ensures
        FixedWidthBigUint::obeys_eq_spec(),
        a.eq_spec(&b) <==> a@.value == b@.value,
        a.eq_spec(&b) <==> order_of(a@.value, b@.value) == Ordering::Equal,
        a.eq_spec(&b) <==> a.partial_cmp_spec(&b) == Some(Ordering::Equal),
{
}

/// Fixed-width numbers are ordered by the natural numbers that they hold, whatever their widths.
pub proof fn law_order(a: FixedWidthBigUint, b: FixedWidthBigUint)
    ensures
        FixedWidthBigUint::obeys_partial_cmp_spec(),
        a.partial_cmp_spec(&b) == Some(Ordering::Less) <==> a@.value < b@.value,
        a.partial_cmp_spec(&b) == Some(Ordering::Greater) <==> b@.value < a@.value,
        a.partial_cmp_spec(&b) == Some(Ordering::Equal) <==> a@.value == b@.value,
        a.partial_cmp_spec(&b) is Some,
{
}

/// Numbers of any size are equal, and ordered, as the natural numbers that they are.
pub proof fn law_number_equality_and_order(a: BigUint, b: BigUint)
    ensures
        BigUint::obeys_eq_spec(),
        a.eq_spec(&b) <==> a@ == b@,
        BigUint::obeys_partial_cmp_spec(),
        a.partial_cmp_spec(&b) == Some(Ordering::Less) <==> a@ < b@,
        a.partial_cmp_spec(&b) == Some(Ordering::Greater) <==> b@ < a@,
        a.partial_cmp_spec(&b) == Some(Ordering::Equal) <==> a@ == b@,
        a.partial_cmp_spec(&b) is Some,
{
}

/// The words of a number over its declared width.
pub open spec fn words(x: FixedWidth) -> Seq<u64> {
    Seq::new(x.n_limbs, |i: int| x.word(i as nat) as u64)
}

/// The words over the declared width are worth the number reduced to that width, which is the
/// number itself where it fits.
pub proof fn law_words_make_the_number(x: FixedWidth)
    ensures
        value(words(x)) == x.value % x.modulus(),
        x.fits() ==> value(words(x)) == x.value,
{
    lemma_words(x.value, x.n_limbs);
    if x.fits() {
        lemma_small_mod(x.value, x.modulus());
    }
}

proof fn lemma_words(v: nat, n: nat)
    ensures
        value(words(FixedWidth::new(v, n))) == v % width_modulus(n),
    decreases n,
{
    lemma_radix_values();
    if n == 0 {
        assert(v % 1 == 0);
    } else {
        let k = (n - 1) as nat;
        let w = weight::<u64>(k);
        let x = FixedWidth::new(v, n);
        let y = FixedWidth::new(v, k);
        lemma_weight_pos::<u64>(k);
        lemma_words(v, k);
        assert(words(x) =~= words(y).push(x.word(k) as u64));
        lemma_value_push(words(y), x.word(k) as u64);
        lemma_weight_step::<u64>(k);
        vstd::arithmetic::div_mod::lemma_mod_breakdown(
            v as int,
            w as int,
            0x1_0000_0000_0000_0000,
        );
        assert(w * x.word(k) == x.word(k) * w) by (nonlinear_arith);
    }
}

/// The width that a conversion from a machine integer picks holds the number, and no smaller
/// number of limbs, of at least one, does.
pub proof fn law_minimal_width(v: nat, n: nat)
    ensures
        FixedWidth::new(v, larger(1, limb_len(v))).fits(),
        n >= 1 && FixedWidth::new(v, n).fits() ==> larger(1, limb_len(v)) <= n,
{
    lemma_limb_len_bound(v, larger(1, limb_len(v)));
    lemma_limb_len_bound(v, n);
}

/// The width made for a precision holds that many bits and is less than one limb wider, and the
/// precision of a declared width gives that width back.
pub proof fn law_precision(bits: nat, n: nat)
    ensures
        bits <= limbs_for_bits(bits) * 64 < bits + 64,
        limbs_for_bits(n * 64) == n,
{
}

/// Reading back the bytes of a number, least significant first, gives the number reduced to its
/// width, which is the number itself where it fits. The width is kept, but for a width of zero.
pub proof fn law_le_round_trip(x: FixedWidth)
    ensures
        value(x.to_le_bytes()) == x.value % x.modulus(),
        x.fits() ==> value(x.to_le_bytes()) == x.value,
        limbs_for_bytes(x.to_le_bytes().len()) == larger(1, x.n_limbs),
{
    lemma_value_of_le_bytes(x.value, 8 * x.n_limbs);
    if x.fits() {
        lemma_small_mod(x.value, x.modulus());
    }
}

/// Reading back the bytes of a number, most significant first, gives the number. The width is kept
/// where the number fits it, but for a width of zero.
pub proof fn law_be_round_trip(x: FixedWidth)
    ensures
        value(x.to_be_bytes().reverse()) == x.value,
        x.fits() ==> limbs_for_bytes(x.to_be_bytes().len()) == larger(1, x.n_limbs),
{
    let len = x.be_len();
    lemma_value_of_le_bytes(x.value, len);
    lemma_byte_len_bound(x.value, len);
    lemma_small_mod(x.value, weight::<u8>(len));
    assert(x.to_be_bytes().reverse() =~= le_bytes(x.value, len));
    if x.fits() {
        lemma_byte_len_bound(x.value, 8 * x.n_limbs);
    }
}

/// Writing out what whole limbs of bytes were read as gives the bytes back, in either order.
pub proof fn law_bytes_round_trip(bytes: Seq<u8>)
    requires
        bytes.len() > 0,
        bytes.len() % 8 == 0,
    ensures
        FixedWidth::new(value(bytes), limbs_for_bytes(bytes.len())).to_le_bytes() == bytes,
        FixedWidth::new(value(bytes.reverse()), limbs_for_bytes(bytes.len())).to_be_bytes()
            == bytes,
{
    lemma_le_bytes_of_value(bytes);
    let turned = bytes.reverse();
    let v = value(turned);
    lemma_le_bytes_of_value(turned);
    crate::positional::lemma_value_bound(turned);
    lemma_byte_len_bound(v, turned.len());
    assert(turned.reverse() =~= bytes);
}

/// A row, shifted or not, leaves the words of the accumulator past the multiplicand's width as they
/// are.
pub proof fn law_rows_keep_high_words(
    acc: FixedWidth,
    m: FixedWidth,
    scalar: u64,
    word: u64,
    i: nat,
)
    requires
        i >= m.n_limbs,
    ensures
        acc.after_row(scalar, m, word).word(i) == acc.word(i),
        acc.after_shifted_row(scalar, m, word).word(i) == acc.word(i),
{
    lemma_pow2_pos(64 * m.n_limbs);
    let low = acc.row_sum(scalar, m, word) % m.modulus();
    let shifted_low = acc.shifted_row_sum(scalar, m, word) % m.modulus();
    lemma_mod_bound(acc.row_sum(scalar, m, word) as int, m.modulus() as int);
    lemma_mod_bound(acc.shifted_row_sum(scalar, m, word) as int, m.modulus() as int);
    lemma_high_words(acc.value, m.n_limbs, low, i);
    lemma_high_words(acc.value, m.n_limbs, shifted_low, i);
}

proof fn lemma_high_words(v: nat, n: nat, low: nat, i: nat)
    requires
        low < width_modulus(n),
        n <= i,
    ensures
        with_low_limbs(v, n, low) / weight::<u64>(i) == v / weight::<u64>(i),
{
    let w = weight::<u64>(n);
    let d = (i - n) as nat;
    let u = with_low_limbs(v, n, low);
    lemma_weight_pos::<u64>(n);
    lemma_weight_pos::<u64>(d);
    lemma_weight_adds::<u64>(n, d);
    lemma_fundamental_div_mod_converse(u as int, w as int, (v / w) as int, low as int);
    vstd::arithmetic::div_mod::lemma_div_denominator(
        u as int,
        w as int,
        weight::<u64>(d) as int,
    );
    vstd::arithmetic::div_mod::lemma_div_denominator(
        v as int,
        w as int,
        weight::<u64>(d) as int,
    );
}

/// On an accumulator and a multiplicand that fit the multiplicand's width, a row adds the product
/// and the carry, and what does not fit comes out as the carry.
pub proof fn law_row_adds(acc: FixedWidth, m: FixedWidth, scalar: u64, carry_in: u64)
    requires
        m.fits(),
        acc.value < m.modulus(),
    ensures
        acc.after_row(scalar, m, carry_in).value + acc.row_carry(scalar, m, carry_in) * m.modulus()
            == acc.value + scalar * m.value + carry_in,
        acc.after_row(scalar, m, carry_in).value < m.modulus(),
{
    let w = m.modulus();
    lemma_pow2_pos(64 * m.n_limbs);
    lemma_small_mod(m.value, w);
    lemma_small_mod(acc.value, w);
    lemma_basic_div(acc.value as int, w as int);
    let sum = acc.row_sum(scalar, m, carry_in);
    lemma_fundamental_div_mod(sum as int, w as int);
    lemma_mod_bound(sum as int, w as int);
    assert(0 * w == 0 && w * (sum / w) == (sum / w) * w) by (nonlinear_arith);
}

/// On an accumulator and a multiplicand that fit the multiplicand's width of at least one limb, a
/// shifted row adds the product to the accumulator and its top word, and drops the lowest word.
/// The carry is at most one.
pub proof fn law_shifted_row_adds_and_shifts(
    acc: FixedWidth,
    m: FixedWidth,
    scalar: u64,
    acc_hi: u64,
)
    requires
        m.n_limbs > 0,
        m.fits(),
        acc.value < m.modulus(),
    ensures
        acc.after_shifted_row(scalar, m, acc_hi).value + acc.shifted_row_carry(scalar, m, acc_hi)
            * m.modulus() == (acc.value + acc_hi * m.modulus() + scalar * m.value)
            / 0x1_0000_0000_0000_0000,
        acc.after_shifted_row(scalar, m, acc_hi).value < m.modulus(),
        acc.shifted_row_carry(scalar, m, acc_hi) <= 1,
{
    let w = m.modulus();
    lemma_radix_values();
    lemma_pow2_pos(64 * m.n_limbs);
    lemma_small_mod(m.value, w);
    lemma_small_mod(acc.value, w);
    lemma_basic_div(acc.value as int, w as int);
    let sum = acc.shifted_row_sum(scalar, m, acc_hi);
    lemma_fundamental_div_mod(sum as int, w as int);
    lemma_mod_bound(sum as int, w as int);
    assert(0 * w == 0 && w * (sum / w) == (sum / w) * w) by (nonlinear_arith);
    let total = acc.value + acc_hi * w + scalar * m.value;
    let b: nat = 0x1_0000_0000_0000_0000;
    assert(scalar * m.value == m.value * scalar) by (nonlinear_arith);
    assert(total < b * (2 * w)) by (nonlinear_arith)
        requires
            total == acc.value + acc_hi * w + scalar * m.value,
            acc.value + 1 <= w,
            m.value + 1 <= w,
            acc_hi + 1 <= b,
            scalar + 1 <= b,
    ;
    vstd::arithmetic::div_mod::lemma_multiply_divide_lt(total as int, b as int, 2int * w);
    vstd::arithmetic::div_mod::lemma_multiply_divide_lt(sum as int, w as int, 2);
}

/// One round of Montgomery multiplication: a row with one word `a` of the first factor, then a
/// shifted row with the word `q` that clears the lowest word. The accumulator with its top word,
/// times the radix, is what it was plus `a` times the second factor plus `q` times the modulus.
pub proof fn law_montgomery_round(
    acc: FixedWidth,
    acc_hi: u64,
    a: u64,
    factor: FixedWidth,
    q: u64,
    m: FixedWidth,
)
    requires
        m.n_limbs > 0,
        factor.n_limbs == m.n_limbs,
        factor.fits(),
        m.fits(),
        acc.value < m.modulus(),
        acc_hi + acc.row_carry(a, factor, 0) <= u64::MAX,
        (acc.after_row(a, factor, 0).value + q * m.value) % 0x1_0000_0000_0000_0000 == 0,
    ensures
        ({
            let summed = acc.after_row(a, factor, 0);
            let top = (acc_hi + acc.row_carry(a, factor, 0)) as u64;
            0x1_0000_0000_0000_0000 * (summed.after_shifted_row(q, m, top).value
                + summed.shifted_row_carry(q, m, top) * m.modulus()) == acc.value + acc_hi
                * m.modulus() + a * factor.value + q * m.value
        }),
{
    let w = m.modulus();
    let b: int = 0x1_0000_0000_0000_0000;
    let summed = acc.after_row(a, factor, 0);
    let c = acc.row_carry(a, factor, 0);
    let top = (acc_hi + c) as u64;
    law_row_adds(acc, factor, a, 0);
    law_shifted_row_adds_and_shifts(summed, m, q, top);
    let total = summed.value + top * w + q * m.value;
    assert(top * w == acc_hi * w + c * w) by (nonlinear_arith)
        requires
            top == acc_hi + c,
    ;
    // The width is a whole number of words, so the top word does not disturb the lowest one.
    lemma_radix_values();
    lemma_weight_step::<u64>((m.n_limbs - 1) as nat);
    let wk = weight::<u64>((m.n_limbs - 1) as nat);
    assert(top * w == (top * wk) * b) by (nonlinear_arith)
        requires
            w == b * wk,
    ;
    lemma_mod_multiples_vanish(top * wk, summed.value + q * m.value, b);
    vstd::arithmetic::mul::lemma_mul_is_commutative(top * wk, b);
    lemma_fundamental_div_mod(total as int, b);
}

/// A model holds the number and the width that it was made of.
pub proof fn law_model(v: nat, n: nat)
    ensures
        FixedWidth::new(v, n).value == v,
        FixedWidth::new(v, n).n_limbs == n,
{
}

/// The modulus of no limbs is one, and each limb multiplies it by the radix. A number fits exactly
/// if it is below that.
pub proof fn law_moduli(x: FixedWidth, n: nat)
    ensures
        width_modulus(0) == 1,
        width_modulus(n + 1) == 0x1_0000_0000_0000_0000 * width_modulus(n),
        width_modulus(n) == pow2(64 * n),
        x.modulus() == pow2(64 * x.n_limbs),
        x.fits() <==> x.value < pow2(64 * x.n_limbs),
{
    lemma_radix_values();
    lemma_weight_step::<u64>(n);
}

/// The width of a result is no less than that of either operand, and is that of one of them.
pub proof fn law_wider(a: FixedWidth, b: FixedWidth)
    ensures
        a.wider(b) >= a.n_limbs,
        a.wider(b) >= b.n_limbs,
        a.wider(b) == a.n_limbs || a.wider(b) == b.n_limbs,
        larger(a.n_limbs, b.n_limbs) == a.wider(b),
{
}

/// The weight of a position is the power of two below it: 64 bits for each limb, and 8 for each
/// byte.
pub proof fn law_weights(n: nat)
    ensures
        weight::<u64>(n) == pow2(64 * n),
        weight::<u8>(n) == pow2(8 * n),
{
}

/// What digits are worth: nothing without digits, and with one more on top, that digit times the
/// power of two at its place more.
pub proof fn law_numerals(limbs: Seq<u64>, limb: u64, bytes: Seq<u8>, byte: u8)
    ensures
        value(Seq::<u64>::empty()) == 0,
        value(limbs.push(limb)) == value(limbs) + limb * pow2(64 * limbs.len()),
        value(Seq::<u8>::empty()) == 0,
        value(bytes.push(byte)) == value(bytes) + byte * pow2(8 * bytes.len()),
{
    lemma_value_push(limbs, limb);
    lemma_value_push(bytes, byte);
}

/// Read most significant byte first, one more byte at the end shifts what was there up by eight
/// bits.
pub proof fn law_big_endian_numerals(bytes: Seq<u8>, byte: u8)
    ensures
        value(bytes.push(byte).reverse()) == 0x100 * value(bytes.reverse()) + byte,
{
    let turned = bytes.push(byte).reverse();
    lemma_radix_values();
    crate::positional::lemma_value_head(turned);
    assert(turned.skip(1) =~= bytes.reverse());
}

/// Every operator but subtraction, division and remainder is defined on all operands, owned or
/// borrowed.
pub proof fn law_operators_are_total(a: FixedWidthBigUint, b: FixedWidthBigUint, bits: usize)
    ensures
        <FixedWidthBigUint as AddSpec<FixedWidthBigUint>>::add_req(a, b),
        <FixedWidthBigUint as AddSpec<&FixedWidthBigUint>>::add_req(a, &b),
        <&FixedWidthBigUint as AddSpec<FixedWidthBigUint>>::add_req(&a, b),
        <&FixedWidthBigUint as AddSpec<&FixedWidthBigUint>>::add_req(&a, &b),
        <FixedWidthBigUint as MulSpec<FixedWidthBigUint>>::mul_req(a, b),
        <FixedWidthBigUint as MulSpec<&FixedWidthBigUint>>::mul_req(a, &b),
        <&FixedWidthBigUint as MulSpec<FixedWidthBigUint>>::mul_req(&a, b),
        <&FixedWidthBigUint as MulSpec<&FixedWidthBigUint>>::mul_req(&a, &b),
        <FixedWidthBigUint as BitAndSpec<FixedWidthBigUint>>::bitand_req(a, b),
        <FixedWidthBigUint as BitAndSpec<&FixedWidthBigUint>>::bitand_req(a, &b),
        <&FixedWidthBigUint as BitAndSpec<FixedWidthBigUint>>::bitand_req(&a, b),
        <&FixedWidthBigUint as BitAndSpec<&FixedWidthBigUint>>::bitand_req(&a, &b),
        <FixedWidthBigUint as BitOrSpec<FixedWidthBigUint>>::bitor_req(a, b),
        <FixedWidthBigUint as BitOrSpec<&FixedWidthBigUint>>::bitor_req(a, &b),
        <&FixedWidthBigUint as BitOrSpec<FixedWidthBigUint>>::bitor_req(&a, b),
        <&FixedWidthBigUint as BitOrSpec<&FixedWidthBigUint>>::bitor_req(&a, &b),
        <FixedWidthBigUint as BitXorSpec<FixedWidthBigUint>>::bitxor_req(a, b),
        <FixedWidthBigUint as BitXorSpec<&FixedWidthBigUint>>::bitxor_req(a, &b),
        <&FixedWidthBigUint as BitXorSpec<FixedWidthBigUint>>::bitxor_req(&a, b),
        <&FixedWidthBigUint as BitXorSpec<&FixedWidthBigUint>>::bitxor_req(&a, &b),
        <FixedWidthBigUint as ShlSpec<usize>>::shl_req(a, bits),
        <FixedWidthBigUint as ShrSpec<usize>>::shr_req(a, bits),
{
}

/// Subtraction is defined exactly where the subtrahend does not exceed the minuend, and division
/// and remainder where the divisor is not zero, with operands owned or borrowed.
pub proof fn law_where_operators_are_defined(a: FixedWidthBigUint, b: FixedWidthBigUint)
    ensures
        <FixedWidthBigUint as SubSpec<FixedWidthBigUint>>::sub_req(a, b) <==> b@.value <= a@.value,
        <FixedWidthBigUint as SubSpec<&FixedWidthBigUint>>::sub_req(a, &b) <==> b@.value <= a@.value,
        <&FixedWidthBigUint as SubSpec<FixedWidthBigUint>>::sub_req(&a, b) <==> b@.value <= a@.value,
        <&FixedWidthBigUint as SubSpec<&FixedWidthBigUint>>::sub_req(&a, &b) <==> b@.value <= a@.value,
        <FixedWidthBigUint as DivSpec<FixedWidthBigUint>>::div_req(a, b) <==> b@.value > 0,
        <FixedWidthBigUint as DivSpec<&FixedWidthBigUint>>::div_req(a, &b) <==> b@.value > 0,
        <&FixedWidthBigUint as DivSpec<FixedWidthBigUint>>::div_req(&a, b) <==> b@.value > 0,
        <&FixedWidthBigUint as DivSpec<&FixedWidthBigUint>>::div_req(&a, &b) <==> b@.value > 0,
        <FixedWidthBigUint as RemSpec<FixedWidthBigUint>>::rem_req(a, b) <==> b@.value > 0,
        <FixedWidthBigUint as RemSpec<&FixedWidthBigUint>>::rem_req(a, &b) <==> b@.value > 0,
        <&FixedWidthBigUint as RemSpec<FixedWidthBigUint>>::rem_req(&a, b) <==> b@.value > 0,
        <&FixedWidthBigUint as RemSpec<&FixedWidthBigUint>>::rem_req(&a, &b) <==> b@.value > 0,
{
}

/// On numbers of any size the operators are defined as on fixed-width ones.
pub proof fn law_where_number_operators_are_defined(a: BigUint, b: BigUint, bits: usize)
    ensures
        a.add_req(b),
        a.sub_req(b) <==> b@ <= a@,
        a.mul_req(b),
        a.div_req(b) <==> b@ > 0,
        a.rem_req(b) <==> b@ > 0,
        a.bitand_req(b),
        a.bitor_req(b),
        a.bitxor_req(b),
        a.shl_req(bits),
        a.shr_req(bits),
{
}

/// A sum exceeds each operand by the other one, at the width of the wider.
pub proof fn law_sum(a: FixedWidth, b: FixedWidth)
    ensures
        a.plus(b).value - a.value == b.value,
        a.plus(b).n_limbs >= a.n_limbs,
        a.plus(b).n_limbs >= b.n_limbs,
        a.plus(b).n_limbs == a.n_limbs || a.plus(b).n_limbs == b.n_limbs,
{
}

/// A difference is what is missing from the smaller number to the larger, at the width of the
/// wider operand.
pub proof fn law_difference(a: FixedWidth, b: FixedWidth)
    requires
        b.value <= a.value,
    ensures
        b.value + a.minus(b).value == a.value,
        a.minus(b).n_limbs >= a.n_limbs,
        a.minus(b).n_limbs >= b.n_limbs,
        a.minus(b).n_limbs == a.n_limbs || a.minus(b).n_limbs == b.n_limbs,
{
}

/// Division undoes multiplication: a product is the one multiple of a nonzero factor that goes into
/// it as often as the other factor says, and is zero with a factor of zero. It has the width of the
/// wider operand.
pub proof fn law_product(a: FixedWidth, b: FixedWidth)
    ensures
        b.value != 0 ==> a.times(b).value % b.value == 0,
        b.value != 0 ==> a.times(b).value / b.value == a.value,
        b.value == 0 ==> a.times(b).value == 0,
        a.times(b).value == b.times(a).value,
        a.times(b).n_limbs >= a.n_limbs,
        a.times(b).n_limbs >= b.n_limbs,
        a.times(b).n_limbs == a.n_limbs || a.times(b).n_limbs == b.n_limbs,
{
    vstd::arithmetic::mul::lemma_mul_is_commutative(a.value as int, b.value as int);
    if b.value != 0 {
        vstd::arithmetic::div_mod::lemma_mod_multiples_basic(a.value as int, b.value as int);
        vstd::arithmetic::div_mod::lemma_div_by_multiple(a.value as int, b.value as int);
    } else {
        assert(a.value * 0 == 0) by (nonlinear_arith);
    }
}

/// A quotient is the greatest number whose product with the divisor does not exceed the dividend.
/// It has the width of the wider operand, on its own.
pub proof fn law_quotient(a: FixedWidth, b: FixedWidth)
    requires
        b.value != 0,
    ensures
        a.quotient(b).value * b.value <= a.value,
        a.value < (a.quotient(b).value + 1) * b.value,
        a.quotient(b).n_limbs >= a.n_limbs,
        a.quotient(b).n_limbs >= b.n_limbs,
        a.quotient(b).n_limbs == a.n_limbs || a.quotient(b).n_limbs == b.n_limbs,
{
    lemma_floor(a.value, b.value);
}

/// A remainder is below the divisor and differs from the dividend by a multiple of the divisor. It
/// has the width of the wider operand, on its own.
pub proof fn law_remainder(a: FixedWidth, b: FixedWidth)
    requires
        b.value != 0,
    ensures
        a.remainder(b).value < b.value,
        a.remainder(b).value <= a.value,
        (a.value - a.remainder(b).value) % (b.value as int) == 0,
        a.remainder(b).n_limbs >= a.n_limbs,
        a.remainder(b).n_limbs >= b.n_limbs,
        a.remainder(b).n_limbs == a.n_limbs || a.remainder(b).n_limbs == b.n_limbs,
{
    lemma_rest_is_multiple(a.value, b.value);
}

/// A quotient of naturals is a floor.
proof fn lemma_floor(a: nat, b: nat)
    requires
        b != 0,
    ensures
        (a / b) * b <= a,
        a < (a / b + 1) * b,
{
    let q = a / b;
    lemma_fundamental_div_mod(a as int, b as int);
    lemma_mod_bound(a as int, b as int);
    assert(b * q == q * b && (q + 1) * b == q * b + b) by (nonlinear_arith);
}

/// What is left of a number without its remainder is a multiple.
proof fn lemma_rest_is_multiple(a: nat, b: nat)
    requires
        b != 0,
    ensures
        a % b < b,
        a % b <= a,
        (a - a % b) % (b as int) == 0,
{
    lemma_floor(a, b);
    lemma_fundamental_div_mod(a as int, b as int);
    lemma_mod_bound(a as int, b as int);
    vstd::arithmetic::mul::lemma_mul_is_commutative(b as int, (a / b) as int);
    vstd::arithmetic::div_mod::lemma_mod_multiples_basic((a / b) as int, b as int);
}

/// A bit of a conjunction is set where both bits are, of a disjunction where one is, and of an
/// exclusive disjunction where just one is. The result has the width of the wider operand.
pub proof fn law_bitwise(a: FixedWidth, b: FixedWidth, op: BitOp, i: nat)
    ensures
        ({
            let p = (a.value / pow2(i)) % 2;
            let q = (b.value / pow2(i)) % 2;
            &&& (a.bitwise(BitOp::And, b).value / pow2(i)) % 2 == 1 <==> p + q == 2
            &&& (a.bitwise(BitOp::Or, b).value / pow2(i)) % 2 == 1 <==> p + q >= 1
            &&& (a.bitwise(BitOp::Xor, b).value / pow2(i)) % 2 == 1 <==> p + q == 1
        }),
        a.bitwise(op, b).n_limbs >= a.n_limbs,
        a.bitwise(op, b).n_limbs >= b.n_limbs,
        a.bitwise(op, b).n_limbs == a.n_limbs || a.bitwise(op, b).n_limbs == b.n_limbs,
{
    lemma_bit(BitOp::And, a.value, b.value, i);
    lemma_bit(BitOp::Or, a.value, b.value, i);
    lemma_bit(BitOp::Xor, a.value, b.value, i);
}

/// Conjunction and disjunction, and the exclusive disjunction with twice the conjunction, add up
/// to the operands.
pub proof fn law_bitwise_sums(a: nat, b: nat)
    ensures
        BitOp::And.on_nats(a, b) + BitOp::Or.on_nats(a, b) == a + b,
        BitOp::Xor.on_nats(a, b) + 2 * BitOp::And.on_nats(a, b) == a + b,
    decreases a + b,
{
    if a != 0 || b != 0 {
        law_bitwise_sums(a / 2, b / 2);
    }
}

/// A shift down is the floor: the result times the power of two does not exceed the number, and the
/// next multiple does. Bit `i` of the result is bit `i + bits` of the number. The width stays.
pub proof fn law_shift_down(x: FixedWidth, bits: nat, i: nat)
    ensures
        x.shifted_down(bits).value * pow2(bits) <= x.value,
        x.value < (x.shifted_down(bits).value + 1) * pow2(bits),
        (x.shifted_down(bits).value / pow2(i)) % 2 == (x.value / pow2(i + bits)) % 2,
        x.shifted_down(bits).n_limbs == x.n_limbs,
{
    lemma_pow2_pos(bits);
    lemma_pow2_pos(i);
    lemma_floor(x.value, pow2(bits));
    vstd::arithmetic::power2::lemma_pow2_adds(bits, i);
    vstd::arithmetic::div_mod::lemma_div_denominator(
        x.value as int,
        pow2(bits) as int,
        pow2(i) as int,
    );
}

/// A shift up is a multiple of the power of two, and the number is how often that goes into it. The
/// width stays.
pub proof fn law_shift_up(x: FixedWidth, bits: nat)
    ensures
        x.shifted_up(bits).value % pow2(bits) == 0,
        x.shifted_up(bits).value / pow2(bits) == x.value,
        x.shifted_up(bits).n_limbs == x.n_limbs,
{
    lemma_pow2_pos(bits);
    vstd::arithmetic::div_mod::lemma_mod_multiples_basic(x.value as int, pow2(bits) as int);
    vstd::arithmetic::div_mod::lemma_div_by_multiple(x.value as int, pow2(bits) as int);
}

/// A wrapping sum is below two to the width in bits, and differs from the sum by a multiple of
/// that. Its width is that of the wider operand.
pub proof fn law_wrapping_sum(a: FixedWidth, b: FixedWidth)
    ensures
        ({
            let r = a.wrapping_plus(b);
            let w = pow2(64 * r.n_limbs);
            &&& r.value < w
            &&& r.value <= a.value + b.value
            &&& (a.value + b.value - r.value) % (w as int) == 0
            &&& r.n_limbs >= a.n_limbs
            &&& r.n_limbs >= b.n_limbs
            &&& r.n_limbs == a.n_limbs || r.n_limbs == b.n_limbs
        }),
{
    let n = a.wider(b);
    lemma_pow2_pos(64 * n);
    lemma_rest_is_multiple(a.value + b.value, pow2(64 * n));
}

/// A borrowing difference plus what was taken off is the minuend, plus two to the width in bits
/// where more was taken off than there was. Its width is that of the wider operand.
pub proof fn law_borrowing_difference(a: FixedWidth, b: FixedWidth, borrow: bool)
    requires
        a.can_borrow(b, borrow),
    ensures
        ({
            let r = a.borrowing_minus(b, borrow);
            let taken = b.value + if borrow {
                1nat
            } else {
                0
            };
            &&& a.difference(b, borrow) + taken == a.value
            &&& a.value >= taken ==> r.value + taken == a.value
            &&& a.value < taken ==> r.value + taken == a.value + pow2(64 * r.n_limbs)
            &&& r.n_limbs >= a.n_limbs
            &&& r.n_limbs >= b.n_limbs
            &&& r.n_limbs == a.n_limbs || r.n_limbs == b.n_limbs
        }),
{
}

/// A borrow is possible exactly if none is needed, or if the wider width in bits fits a machine
/// word and two to that many bits is enough to make up for what is missing.
pub proof fn law_when_a_borrow_is_possible(a: FixedWidth, b: FixedWidth, borrow: bool, n: nat)
    requires
        n >= a.n_limbs,
        n >= b.n_limbs,
        n == a.n_limbs || n == b.n_limbs,
    ensures
        ({
            let taken = b.value + if borrow {
                1nat
            } else {
                0
            };
            a.can_borrow(b, borrow) <==> (a.value >= taken || (n * 64 <= usize::MAX && taken
                <= a.value + pow2(64 * n)))
        }),
{
}

/// The parts of a number split at `n` limbs: the high one times two to the width in bits, and the
/// low one, which is below that, make it up. Both have that width.
pub proof fn law_parts(total: nat, n: nat)
    ensures
        FixedWidth::low_part(total, n).value + FixedWidth::high_part(total, n).value * pow2(64 * n)
            == total,
        FixedWidth::low_part(total, n).value < pow2(64 * n),
        FixedWidth::low_part(total, n).n_limbs == n,
        FixedWidth::high_part(total, n).n_limbs == n,
{
    law_parts_recombine(total, n);
}

/// A word is the digit at its place: the bits up to its top are those below it, and the word at
/// their top.
pub proof fn law_word(x: FixedWidth, i: nat)
    ensures
        x.word(i) < 0x1_0000_0000_0000_0000,
        x.value % pow2(64 * (i + 1)) == x.value % pow2(64 * i) + x.word(i) * pow2(64 * i),
{
    let w = weight::<u64>(i);
    lemma_radix_values();
    lemma_weight_pos::<u64>(i);
    lemma_weight_step::<u64>(i);
    vstd::arithmetic::div_mod::lemma_mod_breakdown(
        x.value as int,
        w as int,
        0x1_0000_0000_0000_0000,
    );
    assert(w * x.word(i) == x.word(i) * w) by (nonlinear_arith);
}

/// The least number of limbs that hold a number, and the least number of bytes, are those below
/// whose power of two it is, and no fewer.
pub proof fn law_least_lengths(v: nat, k: nat)
    ensures
        v < pow2(64 * limb_len(v)),
        v < pow2(64 * k) ==> limb_len(v) <= k,
        v < pow2(8 * byte_len(v)),
        v < pow2(8 * k) ==> byte_len(v) <= k,
{
    lemma_limb_len_bound(v, limb_len(v));
    lemma_limb_len_bound(v, k);
    lemma_byte_len_bound(v, byte_len(v));
    lemma_byte_len_bound(v, k);
}

/// The width that a conversion from a machine integer picks is at least one limb and holds the
/// number, and no fewer limbs do.
pub proof fn law_width_of_conversion(v: nat, k: nat)
    ensures
        larger(1, limb_len(v)) >= 1,
        v < pow2(64 * larger(1, limb_len(v))),
        k >= 1 && v < pow2(64 * k) ==> larger(1, limb_len(v)) <= k,
{
    law_minimal_width(v, k);
}

/// The width picked for a number of bytes is at least one limb, holds them, and is less than one
/// limb wider, but for no bytes at all. What was read from them fits it, in either order.
pub proof fn law_width_of_bytes(bytes: Seq<u8>)
    ensures
        ({
            let n = limbs_for_bytes(bytes.len());
            &&& n >= 1
            &&& bytes.len() <= 8 * n
            &&& bytes.len() > 0 ==> 8 * n < bytes.len() + 8
            &&& bytes.len() == 0 ==> n == 1
            &&& value(bytes) < pow2(64 * n)
            &&& value(bytes.reverse()) < pow2(64 * n)
        }),
{
    let n = limbs_for_bytes(bytes.len());
    crate::positional::lemma_value_bound(bytes);
    crate::positional::lemma_value_bound(bytes.reverse());
    crate::positional::lemma_weight_monotone::<u8>(bytes.len(), 8 * n);
}

/// Byte `i` of `len` bytes, counted from the least significant end, is the number's eight bits from
/// bit `8 i` on.
pub proof fn law_bytes(v: nat, len: nat, i: int)
    ensures
        le_bytes(v, len).len() == len,
        be_bytes(v, len).len() == len,
        0 <= i < len ==> le_bytes(v, len)[i] == (v / pow2(8 * i as nat)) % 0x100,
        0 <= i < len ==> be_bytes(v, len)[len - 1 - i] == (v / pow2(8 * i as nat)) % 0x100,
{
    if 0 <= i < len {
        lemma_pow2_pos(8 * i as nat);
    }
}

/// Least significant byte first, the bytes are eight for each limb, and are worth the number's
/// remainder by two to the width in bits.
pub proof fn law_le_form(x: FixedWidth)
    ensures
        x.to_le_bytes().len() == 8 * x.n_limbs,
        value(x.to_le_bytes()) < pow2(64 * x.n_limbs),
        value(x.to_le_bytes()) <= x.value,
        (x.value - value(x.to_le_bytes())) % (pow2(64 * x.n_limbs) as int) == 0,
{
    law_le_round_trip(x);
    lemma_pow2_pos(64 * x.n_limbs);
    lemma_value_of_le_bytes(x.value, 8 * x.n_limbs);
    lemma_rest_is_multiple(x.value, pow2(64 * x.n_limbs));
}

/// Most significant byte first, the bytes are worth the number. They are eight for each limb, or
/// more without a leading zero, or the one byte of zero where there is no limb.
pub proof fn law_be_form(x: FixedWidth)
    ensures
        ({
            let bytes = x.to_be_bytes();
            &&& value(bytes.reverse()) == x.value
            &&& bytes.len() >= 1
            &&& bytes.len() >= 8 * x.n_limbs
            &&& bytes.len() > 8 * x.n_limbs ==> bytes[0] != 0 || (x.value == 0 && bytes.len()
                == 1)
        }),
{
    law_be_round_trip(x);
    let len = x.be_len();
    let v = x.value;
    lemma_value_of_le_bytes(v, len);
    if len > 8 * x.n_limbs && v != 0 {
        assert(byte_len(v) == len) by {
            lemma_byte_len_bound(v, 0);
            lemma_radix_values();
        }
        let k = (len - 1) as nat;
        let w = weight::<u8>(k);
        lemma_radix_values();
        lemma_byte_len_bound(v, k);
        lemma_byte_len_bound(v, len);
        lemma_weight_pos::<u8>(k);
        lemma_weight_step::<u8>(k);
        lemma_floor(v, w);
        let q = v / w;
        assert(q > 0) by (nonlinear_arith)
            requires
                w <= v,
                v < (q + 1) * w,
        ;
        assert(q < 0x100) by (nonlinear_arith)
            requires
                q * w <= v,
                v < 0x100 * w,
        ;
        law_bytes(v, len, k as int);
    }
}

/// A row leaves the declared width, and the accumulator past the multiplicand's width. The
/// accumulator, with the carry above the multiplicand's width, grows by the scalar times the
/// multiplicand's words and by the carry that came in.
pub proof fn law_row(acc: FixedWidth, m: FixedWidth, scalar: u64, carry_in: u64)
    ensures
        ({
            let w = pow2(64 * m.n_limbs);
            let r = acc.after_row(scalar, m, carry_in);
            &&& r.n_limbs == acc.n_limbs
            &&& r.value / w == acc.value / w
            &&& r.value + acc.row_carry(scalar, m, carry_in) * w == acc.value + scalar * (m.value
                % w) + carry_in
        }),
{
    let w = pow2(64 * m.n_limbs);
    lemma_pow2_pos(64 * m.n_limbs);
    let sum = acc.row_sum(scalar, m, carry_in);
    lemma_low_limbs(acc.value, m.n_limbs, sum);
}

/// A shifted row leaves the declared width, and the accumulator past the multiplicand's width. What
/// it makes of the rest, with the carry above, times the radix, is the floor of the accumulator
/// with its top word and the scalar times the multiplicand's words. The carry is at most one.
pub proof fn law_shifted_row(acc: FixedWidth, m: FixedWidth, scalar: u64, acc_hi: u64)
    ensures
        ({
            let w = pow2(64 * m.n_limbs);
            let b = 0x1_0000_0000_0000_0000nat;
            let r = acc.after_shifted_row(scalar, m, acc_hi);
            let carry = acc.shifted_row_carry(scalar, m, acc_hi);
            let total = acc.value % w + acc_hi * w + scalar * (m.value % w);
            &&& r.n_limbs == acc.n_limbs
            &&& r.value / w == acc.value / w
            &&& carry <= 1
            &&& m.n_limbs > 0 ==> (r.value % w + carry * w) * b <= total < (r.value % w + carry * w
                + 1) * b
        }),
{
    let n = m.n_limbs;
    let w = pow2(64 * n);
    let b = 0x1_0000_0000_0000_0000nat;
    let k = crate::rows::shifted_row_len(n);
    let wk = pow2(64 * k);
    lemma_radix_values();
    lemma_pow2_pos(64 * n);
    lemma_pow2_pos(64 * k);
    let sum = acc.shifted_row_sum(scalar, m, acc_hi);
    let low_a = acc.value % wk;
    let low_m = m.value % wk;
    let total = low_a + acc_hi * wk + scalar * low_m;
    lemma_mod_bound(acc.value as int, wk as int);
    lemma_mod_bound(m.value as int, wk as int);
    assert(0 <= total < b * (2 * wk)) by (nonlinear_arith)
        requires
            total == low_a + acc_hi * wk + scalar * low_m,
            0 <= low_a < wk,
            0 <= low_m < wk,
            0 <= acc_hi,
            0 <= scalar,
            acc_hi + 1 <= b,
            scalar + 1 <= b,
    ;
    assert(sum == total / (b as int));
    vstd::arithmetic::div_mod::lemma_multiply_divide_lt(total as int, b as int, 2int * wk);
    vstd::arithmetic::div_mod::lemma_multiply_divide_lt(sum as int, wk as int, 2);
    if n > 0 {
        lemma_low_limbs(acc.value, n, sum);
        lemma_floor(total as nat, b);
    }
}

/// A shifted row over no words leaves the accumulator and carries what its top word and the high
/// half of the lowest product make beyond a word.
pub proof fn law_shifted_row_over_no_words(
    acc: FixedWidth,
    m: FixedWidth,
    scalar: u64,
    acc_hi: u64,
)
    requires
        m.n_limbs == 0,
    ensures
        ({
            let b = 0x1_0000_0000_0000_0000nat;
            let carry = acc.shifted_row_carry(scalar, m, acc_hi);
            let total = acc.value % b + acc_hi * b + scalar * (m.value % b);
            &&& acc.after_shifted_row(scalar, m, acc_hi) == acc
            &&& carry * b * b <= total < (carry + 1) * b * b
        }),
{
    let b = 0x1_0000_0000_0000_0000nat;
    lemma_radix_values();
    let total = acc.value % b + acc_hi * b + scalar * (m.value % b);
    let sum = acc.shifted_row_sum(scalar, m, acc_hi);
    assert(m.value % b >= 0 && scalar * (m.value % b) >= 0) by (nonlinear_arith)
        requires
            b > 0,
            scalar >= 0,
    ;
    lemma_floor(total as nat, b);
    lemma_floor(sum, b);
    let carry = sum / b;
    assert(carry * b * b <= sum * b && (sum + 1) * b <= (carry + 1) * b * b) by (nonlinear_arith)
        requires
            carry * b <= sum,
            sum + 1 <= (carry + 1) * b,
    ;
}

/// Replacing the low limbs by the low part of a sum, with the rest of the sum as the carry.
proof fn lemma_low_limbs(v: nat, n: nat, sum: nat)
    ensures
        ({
            let w = pow2(64 * n);
            let r = with_low_limbs(v, n, sum % w);
            &&& r / w == v / w
            &&& r % w == sum % w
            &&& r + (sum / w) * w == v - v % w + sum
            &&& sum % w + (sum / w) * w == sum
        }),
{
    let w = pow2(64 * n);
    lemma_pow2_pos(64 * n);
    lemma_fundamental_div_mod(v as int, w as int);
    lemma_fundamental_div_mod(sum as int, w as int);
    lemma_mod_bound(sum as int, w as int);
    vstd::arithmetic::mul::lemma_mul_is_commutative(w as int, (v / w) as int);
    vstd::arithmetic::mul::lemma_mul_is_commutative(w as int, (sum / w) as int);
    lemma_fundamental_div_mod_converse(
        with_low_limbs(v, n, sum % w) as int,
        w as int,
        (v / w) as int,
        (sum % w) as int,
    );
}

/// Decimal text ends in the digit of the ones, and before it, from ten on, stands the text of the
/// tens.
pub proof fn law_decimal(v: nat)
    ensures
        decimal(v).len() >= 1,
        decimal(v).last() as nat == 48 + v % 10,
        v < 10 ==> decimal(v).len() == 1,
        v >= 10 ==> decimal(v).drop_last() == decimal(v / 10),
        v > 0 ==> decimal(v)[0] != '0',
    decreases v,
{
    if v >= 10 {
        law_decimal(v / 10);
        assert(decimal(v).drop_last() =~= decimal(v / 10));
    }
}

/// The text of a fixed-width number holds the number and the width, both in decimal, in their
/// places.
pub proof fn law_shown(x: FixedWidth)
    ensures
        shown(x) == seq![
            'F', 'i', 'x', 'e', 'd', 'W', 'i', 'd', 't', 'h', 'B', 'i', 'g', 'U', 'i', 'n', 't',
            '(',
        ] + decimal(x.value) + seq![',', ' ', 'n', '='] + decimal(x.n_limbs) + seq![')'],
{
    reveal_strlit("FixedWidthBigUint(");
    reveal_strlit(", n=");
    reveal_strlit(")");
    assert("FixedWidthBigUint("@ =~= seq![
        'F', 'i', 'x', 'e', 'd', 'W', 'i', 'd', 't', 'h', 'B', 'i', 'g', 'U', 'i', 'n', 't', '(',
    ]);
    assert(", n="@ =~= seq![',', ' ', 'n', '=']);
    assert(")"@ =~= seq![')']);
}

} // verus!
