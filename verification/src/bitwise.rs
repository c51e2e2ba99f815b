//! Bitwise operations on naturals of any size.
use vstd::prelude::*;
use vstd::arithmetic::power2::{lemma2_to64, lemma_pow2_pos, lemma_pow2_unfold, pow2};

verus! {

/// A bitwise operation that takes two clear bits to a clear bit.
#[derive(Clone, Copy)]
pub enum BitOp {
    And,
    Or,
    Xor,
}

/// Whether bit `i` of `x` is set.
pub open spec fn bit(x: nat, i: nat) -> bool {
    (x / pow2(i)) % 2 == 1
}

/// A set bit is worth one.
pub open spec fn bit_value(b: bool) -> nat {
    if b {
        1
    } else {
        0
    }
}

impl BitOp {
    /// What the operation does to a pair of bits.
    pub open spec fn on_bits(self, p: bool, q: bool) -> bool {
        match self {
            BitOp::And => p && q,
            BitOp::Or => p || q,
            BitOp::Xor => p != q,
        }
    }

    /// The number whose every bit comes from the bits of `a` and `b` in the same place.
    pub open spec fn on_nats(self, a: nat, b: nat) -> nat
        decreases a + b,
    {
        if a == 0 && b == 0 {
            0
        } else {
            bit_value(self.on_bits(a % 2 == 1, b % 2 == 1)) + 2 * self.on_nats(a / 2, b / 2)
        }
    }

    /// What the operation does to a pair of machine words.
    pub open spec fn on_words(self, x: u64, y: u64) -> u64 {
        match self {
            BitOp::And => x & y,
            BitOp::Or => x | y,
            BitOp::Xor => x ^ y,
        }
    }

    /// Applies the operation to a pair of machine words.
    pub fn apply(self, x: u64, y: u64) -> (r: u64)
        ensures
            r == self.on_words(x, y),
            r == self.on_nats(x as nat, y as nat),
    {
        proof {
            lemma_words(self, x, y);
        }
        match self {
            BitOp::And => x & y,
            BitOp::Or => x | y,
            BitOp::Xor => x ^ y,
        }
    }
}

proof fn lemma_word_halves(x: u64, y: u64)
    ensures
        x & y == 2 * ((x / 2) & (y / 2)) + ((x % 2) & (y % 2)),
        x | y == 2 * ((x / 2) | (y / 2)) + ((x % 2) | (y % 2)),
        x ^ y == 2 * ((x / 2) ^ (y / 2)) + ((x % 2) ^ (y % 2)),
{
    assert(x & y == 2 * ((x / 2) & (y / 2)) + ((x % 2) & (y % 2))) by (bit_vector);
    assert(x | y == 2 * ((x / 2) | (y / 2)) + ((x % 2) | (y % 2))) by (bit_vector);
    assert(x ^ y == 2 * ((x / 2) ^ (y / 2)) + ((x % 2) ^ (y % 2))) by (bit_vector);
}

proof fn lemma_single_bits()
    ensures
        0u64 & 0u64 == 0,
        0u64 & 1u64 == 0,
        1u64 & 0u64 == 0,
        1u64 & 1u64 == 1,
        0u64 | 0u64 == 0,
        0u64 | 1u64 == 1,
        1u64 | 0u64 == 1,
        1u64 | 1u64 == 1,
        0u64 ^ 0u64 == 0,
        0u64 ^ 1u64 == 1,
        1u64 ^ 0u64 == 1,
        1u64 ^ 1u64 == 0,
{
    assert(0u64 & 0u64 == 0 && 0u64 & 1u64 == 0 && 1u64 & 0u64 == 0 && 1u64 & 1u64 == 1)
        by (bit_vector);
    assert(0u64 | 0u64 == 0 && 0u64 | 1u64 == 1 && 1u64 | 0u64 == 1 && 1u64 | 1u64 == 1)
        by (bit_vector);
    assert(0u64 ^ 0u64 == 0 && 0u64 ^ 1u64 == 1 && 1u64 ^ 0u64 == 1 && 1u64 ^ 1u64 == 0)
        by (bit_vector);
}

/// On machine words the operation is the machine's own.
pub proof fn lemma_words(op: BitOp, x: u64, y: u64)
    ensures
        op.on_words(x, y) == op.on_nats(x as nat, y as nat),
    decreases x + y,
{
    lemma_single_bits();
    if x == 0 && y == 0 {
    } else {
        lemma_words(op, x / 2, y / 2);
        lemma_word_halves(x, y);
    }
}

/// The operation works on the low `k` bits and on the rest apart from each other.
pub proof fn lemma_concat(op: BitOp, k: nat, d: nat, e: nat, x: nat, y: nat)
    requires
        d < pow2(k),
        e < pow2(k),
    ensures
        op.on_nats(d + pow2(k) * x, e + pow2(k) * y) == op.on_nats(d, e) + pow2(k) * op.on_nats(
            x,
            y,
        ),
    decreases k,
{
    lemma2_to64();
    let r = op.on_nats(x, y);
    if k == 0 {
        assert(pow2(k) * x == x && pow2(k) * y == y && pow2(k) * r == r) by (nonlinear_arith)
            requires
                pow2(k) == 1,
        ;
    } else {
        let h = pow2((k - 1) as nat);
        let a = d + pow2(k) * x;
        let b = e + pow2(k) * y;
        lemma_pow2_unfold(k);
        assert(pow2(k) * x == 2 * (h * x) && pow2(k) * y == 2 * (h * y) && pow2(k) * r == 2 * (h
            * r)) by (nonlinear_arith)
            requires
                pow2(k) == 2 * h,
        ;
        lemma_concat(op, (k - 1) as nat, d / 2, e / 2, x, y);
        assert(a / 2 == d / 2 + h * x && b / 2 == e / 2 + h * y);
        assert(a % 2 == d % 2 && b % 2 == e % 2);
        if a == 0 && b == 0 {
            assert(op.on_nats(0, 0) == 0);
            lemma_pow2_pos((k - 1) as nat);
            assert(x == 0 && y == 0) by (nonlinear_arith)
                requires
                    h > 0,
                    h * x == 0,
                    h * y == 0,
            ;
            assert(h * r == 0) by (nonlinear_arith)
                requires
                    r == 0,
            ;
        }
    }
}

/// Masking with `k` set bits keeps the remainder by `2^k`.
pub proof fn lemma_low_mask(x: nat, k: nat)
    ensures
        BitOp::And.on_nats(x, (pow2(k) - 1) as nat) == x % pow2(k),
    decreases k,
{
    lemma2_to64();
    lemma_pow2_pos(k);
    let m = (pow2(k) - 1) as nat;
    if k == 0 {
        lemma_and_zero(x);
    } else {
        let h = pow2((k - 1) as nat);
        lemma_pow2_unfold(k);
        lemma_pow2_pos((k - 1) as nat);
        assert(m / 2 == h - 1 && m % 2 == 1);
        lemma_low_mask(x / 2, (k - 1) as nat);
        vstd::arithmetic::div_mod::lemma_mod_breakdown(x as int, 2, h as int);
    }
}

/// Nothing is left of a number masked with zero.
pub proof fn lemma_and_zero(x: nat)
    ensures
        BitOp::And.on_nats(x, 0) == 0,
    decreases x,
{
    if x > 0 {
        lemma_and_zero(x / 2);
    }
}

/// Each bit of the result is the operation on the two bits in its place.
pub proof fn lemma_bit(op: BitOp, a: nat, b: nat, i: nat)
    ensures
        bit(op.on_nats(a, b), i) == op.on_bits(bit(a, i), bit(b, i)),
    decreases i,
{
    lemma2_to64();
    let r = op.on_nats(a, b);
    lemma_pow2_pos(i);
    if i == 0 {
        assert(r / 1 == r && a / 1 == a && b / 1 == b);
    } else {
        let h = pow2((i - 1) as nat);
        lemma_pow2_unfold(i);
        lemma_pow2_pos((i - 1) as nat);
        lemma_bit(op, a / 2, b / 2, (i - 1) as nat);
        vstd::arithmetic::div_mod::lemma_div_denominator(a as int, 2, h as int);
        vstd::arithmetic::div_mod::lemma_div_denominator(b as int, 2, h as int);
        vstd::arithmetic::div_mod::lemma_div_denominator(r as int, 2, h as int);
        assert(r / 2 == op.on_nats(a / 2, b / 2));
    }
}

} // verus!
