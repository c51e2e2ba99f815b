//! Positional notation: what a little-endian sequence of digits is worth.
use vstd::prelude::*;
use vstd::arithmetic::power2::{
    lemma2_to64, lemma2_to64_rest, lemma_pow2_adds, lemma_pow2_pos, pow2,
};
use vstd::arithmetic::mul::{
    lemma_mul_inequality, lemma_mul_is_commutative, lemma_mul_is_distributive_add,
};
use vstd::arithmetic::div_mod::lemma_fundamental_div_mod_converse;

verus! {

/// A machine word that serves as one digit of a positional numeral.
pub trait Digit: Sized {
    /// How many bits one digit holds.
    spec fn width() -> nat;

    /// The number that the digit stands for.
    spec fn as_nat(self) -> nat;

    /// A digit is below the radix.
    proof fn lemma_bound(self)
        ensures
            self.as_nat() < pow2(Self::width()),
    ;
}

impl Digit for u64 {
    open spec fn width() -> nat {
        64
    }

    open spec fn as_nat(self) -> nat {
        self as nat
    }

    proof fn lemma_bound(self) {
        lemma2_to64();
    }
}

impl Digit for u8 {
    open spec fn width() -> nat {
        8
    }

    open spec fn as_nat(self) -> nat {
        self as nat
    }

    proof fn lemma_bound(self) {
        lemma2_to64();
    }
}

/// The weight of the digit at position `n`: the radix to the power `n`.
pub open spec fn weight<D: Digit>(n: nat) -> nat {
    pow2(D::width() * n)
}

/// What the digits are worth, least significant digit first.
pub open spec fn value<D: Digit>(s: Seq<D>) -> nat
    decreases s.len(),
{
    if s.len() == 0 {
        0
    } else {
        value(s.drop_last()) + s.last().as_nat() * weight::<D>((s.len() - 1) as nat)
    }
}

/// The digit at position `i`, where every position past the end holds zero.
pub open spec fn digit_at<D: Digit>(s: Seq<D>, i: int) -> nat {
    if 0 <= i < s.len() {
        s[i].as_nat()
    } else {
        0
    }
}

/// What the digits below position `i` are worth.
pub open spec fn low_value<D: Digit>(s: Seq<D>, i: nat) -> nat {
    if i <= s.len() {
        value(s.take(i as int))
    } else {
        value(s)
    }
}

pub proof fn lemma_weight_pos<D: Digit>(n: nat)
    ensures
        weight::<D>(n) > 0,
{
    lemma_pow2_pos(D::width() * n);
}

pub proof fn lemma_weight_zero<D: Digit>()
    ensures
        weight::<D>(0) == 1,
{
    assert(D::width() * 0 == 0) by (nonlinear_arith);
    lemma2_to64();
}

pub proof fn lemma_weight_adds<D: Digit>(a: nat, b: nat)
    ensures
        weight::<D>(a + b) == weight::<D>(a) * weight::<D>(b),
{
    lemma_mul_is_distributive_add(D::width() as int, a as int, b as int);
    lemma_pow2_adds(D::width() * a, D::width() * b);
}

/// The weight of the next position is the radix times the weight of this one.
pub proof fn lemma_weight_step<D: Digit>(n: nat)
    ensures
        weight::<D>(n + 1) == weight::<D>(n) * weight::<D>(1),
        weight::<D>(n + 1) == weight::<D>(1) * weight::<D>(n),
        weight::<D>(1) == pow2(D::width()),
{
    lemma_weight_adds::<D>(n, 1);
    lemma_mul_is_commutative(weight::<D>(n) as int, weight::<D>(1) as int);
    assert(D::width() * 1 == D::width()) by (nonlinear_arith);
}

/// A larger position has at least the weight of a smaller one.
pub proof fn lemma_weight_monotone<D: Digit>(a: nat, b: nat)
    requires
        a <= b,
    ensures
        weight::<D>(a) <= weight::<D>(b),
{
    let d = (b - a) as nat;
    lemma_weight_adds::<D>(a, d);
    lemma_weight_pos::<D>(a);
    lemma_weight_pos::<D>(d);
    lemma_mul_inequality(1, weight::<D>(d) as int, weight::<D>(a) as int);
    lemma_mul_is_commutative(weight::<D>(d) as int, weight::<D>(a) as int);
}

/// The radix of 64-bit limbs, and the radix of bytes.
pub proof fn lemma_radix_values()
    ensures
        weight::<u64>(1) == 0x1_0000_0000_0000_0000,
        weight::<u8>(1) == 0x100,
        weight::<u64>(0) == 1,
        weight::<u8>(0) == 1,
{
    lemma2_to64();
    lemma2_to64_rest();
}

pub proof fn lemma_value_push<D: Digit>(s: Seq<D>, d: D)
    ensures
        value(s.push(d)) == value(s) + d.as_nat() * weight::<D>(s.len()),
{
    assert(s.push(d).drop_last() =~= s);
}

/// `n` digits are worth less than the weight of position `n`.
pub proof fn lemma_value_bound<D: Digit>(s: Seq<D>)
    ensures
        value(s) < weight::<D>(s.len()),
    decreases s.len(),
{
    if s.len() == 0 {
        lemma_weight_zero::<D>();
    } else {
        let k = (s.len() - 1) as nat;
        let w = weight::<D>(k);
        let b = weight::<D>(1);
        let d = s.last().as_nat();
        lemma_value_bound(s.drop_last());
        s.last().lemma_bound();
        lemma_weight_step::<D>(k);
        lemma_weight_pos::<D>(k);
        assert(d * w + w <= b * w) by (nonlinear_arith)
            requires
                d + 1 <= b,
        ;
    }
}

/// A numeral without leading zeros is worth at least the weight of its top position.
pub proof fn lemma_value_lower<D: Digit>(s: Seq<D>)
    requires
        s.len() > 0,
        s.last().as_nat() != 0,
    ensures
        weight::<D>((s.len() - 1) as nat) <= value(s),
{
    let w = weight::<D>((s.len() - 1) as nat);
    let d = s.last().as_nat();
    assert(w <= d * w) by (nonlinear_arith)
        requires
            d >= 1,
    ;
}

pub proof fn lemma_value_append<D: Digit>(s: Seq<D>, t: Seq<D>)
    ensures
        value(s + t) == value(s) + weight::<D>(s.len()) * value(t),
    decreases t.len(),
{
    let ws = weight::<D>(s.len());
    if t.len() == 0 {
        assert(s + t =~= s);
        assert(ws * 0 == 0) by (nonlinear_arith);
    } else {
        let k = (t.len() - 1) as nat;
        let d = t.last().as_nat();
        assert((s + t).drop_last() =~= s + t.drop_last());
        lemma_value_append(s, t.drop_last());
        lemma_weight_adds::<D>(s.len(), k);
        let wk = weight::<D>(k);
        let v = value(t.drop_last());
        assert(ws * (v + d * wk) == ws * v + d * (ws * wk)) by (nonlinear_arith);
    }
}

/// Cutting a numeral at position `k` divides its worth by the weight of `k`.
pub proof fn lemma_value_split<D: Digit>(s: Seq<D>, k: nat)
    requires
        k <= s.len(),
    ensures
        value(s) == value(s.take(k as int)) + weight::<D>(k) * value(s.skip(k as int)),
        value(s.take(k as int)) == value(s) % weight::<D>(k),
        value(s.skip(k as int)) == value(s) / weight::<D>(k),
{
    let lo = s.take(k as int);
    let hi = s.skip(k as int);
    assert(lo + hi =~= s);
    lemma_value_append(lo, hi);
    lemma_value_bound(lo);
    lemma_mul_is_commutative(weight::<D>(k) as int, value(hi) as int);
    lemma_fundamental_div_mod_converse(
        value(s) as int,
        weight::<D>(k) as int,
        value(hi) as int,
        value(lo) as int,
    );
}

/// The least significant digit, and the worth of the rest.
pub proof fn lemma_value_head<D: Digit>(s: Seq<D>)
    requires
        s.len() > 0,
    ensures
        value(s) == s[0].as_nat() + weight::<D>(1) * value(s.skip(1)),
{
    lemma_value_split(s, 1);
    let one = s.take(1);
    assert(one.drop_last() =~= Seq::<D>::empty());
    lemma_weight_zero::<D>();
    assert(value(one.drop_last()) == 0);
    assert(value(one) == s[0].as_nat() * 1);
}

pub proof fn lemma_value_update<D: Digit>(s: Seq<D>, i: int, d: D)
    requires
        0 <= i < s.len(),
    ensures
        value(s.update(i, d)) + s[i].as_nat() * weight::<D>(i as nat) == value(s) + d.as_nat()
            * weight::<D>(i as nat),
    decreases s.len(),
{
    let u = s.update(i, d);
    if i == s.len() - 1 {
        assert(u.drop_last() =~= s.drop_last());
    } else {
        assert(u.drop_last() =~= s.drop_last().update(i, d));
        lemma_value_update(s.drop_last(), i, d);
    }
}

/// The digits below a position are worth the remainder by its weight.
pub proof fn lemma_low_value<D: Digit>(s: Seq<D>, i: nat)
    ensures
        low_value(s, i) == value(s) % weight::<D>(i),
        low_value(s, i) < weight::<D>(i),
{
    if i <= s.len() {
        lemma_value_split(s, i);
        lemma_value_bound(s.take(i as int));
    } else {
        lemma_value_bound(s);
        lemma_weight_monotone::<D>(s.len(), i);
        vstd::arithmetic::div_mod::lemma_small_mod(value(s), weight::<D>(i));
    }
}

pub proof fn lemma_low_value_step<D: Digit>(s: Seq<D>, i: nat)
    ensures
        low_value(s, 0) == 0,
        low_value(s, i + 1) == low_value(s, i) + digit_at(s, i as int) * weight::<D>(i),
        i >= s.len() ==> low_value(s, i) == value(s),
{
    assert(s.take(0) =~= Seq::<D>::empty());
    if i < s.len() {
        assert(s.take(i + 1int).drop_last() =~= s.take(i as int));
    } else {
        assert(s.take(s.len() as int) =~= s);
        assert(0 * weight::<D>(i) == 0) by (nonlinear_arith);
    }
}

/// The digit at a position, read off the worth of the whole numeral.
pub proof fn lemma_digit_at<D: Digit>(s: Seq<D>, i: nat)
    ensures
        digit_at(s, i as int) == (value(s) / weight::<D>(i)) % weight::<D>(1),
{
    lemma_weight_pos::<D>(i);
    lemma_weight_pos::<D>(1);
    if i < s.len() {
        lemma_value_split(s, i);
        let hi = s.skip(i as int);
        lemma_value_head(hi);
        lemma_weight_step::<D>(0);
        hi[0].lemma_bound();
        lemma_mul_is_commutative(weight::<D>(1) as int, value(hi.skip(1)) as int);
        lemma_fundamental_div_mod_converse(
            value(hi) as int,
            weight::<D>(1) as int,
            value(hi.skip(1)) as int,
            hi[0].as_nat() as int,
        );
    } else {
        lemma_value_bound(s);
        lemma_weight_monotone::<D>(s.len(), i);
        vstd::arithmetic::div_mod::lemma_basic_div(value(s) as int, weight::<D>(i) as int);
        vstd::arithmetic::div_mod::lemma_small_mod(0, weight::<D>(1));
    }
}

} // verus!
