//! Long division of little-endian sequences of 64-bit limbs.
use vstd::prelude::*;
use vstd::arithmetic::power2::{lemma2_to64, lemma2_to64_rest, lemma_pow2_pos, pow2};
use crate::limbs::{less, limb, mul_limb, normalized, shl, shr, sub_limbs, trim, zeros, RADIX};
use crate::positional::{
    digit_at, lemma_low_value, lemma_low_value_step, lemma_radix_values, lemma_value_bound,
    lemma_value_head, lemma_value_lower, lemma_weight_pos, lemma_weight_step, value, weight,
};

verus! {

/// How far a nonzero limb can be shifted up until its top bit is set.
fn leading_room(top: u64) -> (s: usize)
    requires
        top > 0,
    ensures
        s < 64,
        0x8000_0000_0000_0000 <= top * pow2(s as nat) < RADIX,
{
    let mut t: u64 = top;
    let mut s: usize = 0;
    proof {
        lemma2_to64();
    }
    while t < 0x8000_0000_0000_0000
        invariant
            0 < t,
            s <= 63,
            t == top * pow2(s as nat),
            pow2(s as nat) <= t,
        decreases RADIX - t,
    {
        proof {
            vstd::arithmetic::power2::lemma_pow2_unfold((s + 1) as nat);
            assert(top * (2 * pow2(s as nat)) == 2 * (top * pow2(s as nat))) by (nonlinear_arith);
            if s == 63 {
                lemma2_to64_rest();
            }
        }
        t = t * 2;
        s += 1;
    }
    s
}

/// The leading limbs never put a quotient digit too low: with `d` at most the true quotient of
/// `v` by `b`, `d` is at most the quotient of the limbs of `v` from `w` up by the top limb of `b`.
proof fn lemma_estimate(v: nat, b: nat, w: nat, d: nat, lead: nat, top: nat)
    requires
        d * b <= v,
        v < (lead + 1) * w,
        top * w <= b,
        top > 0,
    ensures
        d <= lead / top,
{
    assert(d * top < lead + 1) by (nonlinear_arith)
        requires
            d * b <= v,
            v < (lead + 1) * w,
            top * w <= b,
    ;
    vstd::arithmetic::div_mod::lemma_div_is_ordered((d * top) as int, lead as int, top as int);
    vstd::arithmetic::div_mod::lemma_div_by_multiple(d as int, top as int);
}

/// One digit of a long division: quotient and remainder, where the quotient fits a limb.
fn div_digit(a: &[u64], b: &[u64]) -> (r: (u64, Vec<u64>))
    requires
        b@.len() > 0,
        normalized(b@),
        value(a@) < RADIX * value(b@),
    ensures
        r.0 == value(a@) / value(b@),
        value(r.1@) == value(a@) % value(b@),
        normalized(r.1@),
{
    let n = b.len();
    let top = b[n - 1];
    let lead: u128 = limb(a, n) as u128 * RADIX + limb(a, n - 1) as u128;
    let guess: u128 = lead / (top as u128);
    let mut digit: u64 = if guess < RADIX {
        guess as u64
    } else {
        0xffff_ffff_ffff_ffff
    };
    let ghost v = value(a@);
    let ghost vb = value(b@);
    proof {
        let k = (n - 1) as nat;
        let w = weight::<u64>(k);
        let d = v / vb;
        lemma_radix_values();
        lemma_value_lower(b@);
        lemma_weight_pos::<u64>(k);
        vstd::arithmetic::div_mod::lemma_fundamental_div_mod(v as int, vb as int);
        // The limbs of `a` past position `n` are zero.
        lemma_value_bound(b@);
        lemma_weight_step::<u64>(n as nat);
        lemma_weight_step::<u64>(k);
        assert(RADIX * vb <= RADIX * weight::<u64>(n as nat)) by (nonlinear_arith)
            requires
                vb <= weight::<u64>(n as nat),
        ;
        lemma_low_value(a@, (n + 1) as nat);
        vstd::arithmetic::div_mod::lemma_small_mod(v, weight::<u64>((n + 1) as nat));
        lemma_low_value_step(a@, n as nat);
        lemma_low_value_step(a@, k);
        lemma_low_value(a@, k);
        let x = digit_at(a@, n as int);
        let y = digit_at(a@, n - 1);
        assert(x * (RADIX * w) + y * w == lead * w) by (nonlinear_arith)
            requires
                lead == x * RADIX + y,
        ;
        assert((lead + 1) * w == lead * w + w) by (nonlinear_arith);
        assert(d * vb == vb * d) by (nonlinear_arith);
        lemma_estimate(v, vb, w, d, lead as nat, top as nat);
        assert(d < RADIX) by (nonlinear_arith)
            requires
                vb * d <= v,
                v < RADIX * vb,
        ;
        let m = v % vb;
        vstd::arithmetic::div_mod::lemma_mod_bound(v as int, vb as int);
        assert(v < (digit + 1) * vb) by (nonlinear_arith)
            requires
                v == vb * d + m,
                m < vb,
                d <= digit,
        ;
    }
    let mut product = mul_limb(b, digit);
    while less(a, product.as_slice())
        invariant
            v == value(a@),
            vb == value(b@),
            value(product@) == digit * vb,
            v < (digit + 1) * vb,
        decreases digit,
    {
        proof {
            assert(digit > 0) by (nonlinear_arith)
                requires
                    v < digit * vb,
            ;
            assert(digit * vb - vb == (digit - 1) * vb && vb <= digit * vb) by (nonlinear_arith)
                requires
                    digit > 0,
            ;
        }
        product = sub_limbs(product.as_slice(), b);
        digit -= 1;
    }
    let rest = sub_limbs(a, product.as_slice());
    proof {
        assert((digit + 1) * vb == digit * vb + vb) by (nonlinear_arith);
        vstd::arithmetic::div_mod::lemma_fundamental_div_mod_converse(
            v as int,
            vb as int,
            digit as int,
            value(rest@) as int,
        );
    }
    (digit, rest)
}

/// Quotient and remainder of two numerals whose divisor has no zero limb at the top.
fn div_long(a: &[u64], b: &[u64]) -> (r: (Vec<u64>, Vec<u64>))
    requires
        b@.len() > 0,
        normalized(b@),
    ensures
        value(r.0@) == value(a@) / value(b@),
        value(r.1@) == value(a@) % value(b@),
        normalized(r.0@),
        normalized(r.1@),
{
    let mut q = zeros(a.len());
    let mut rem: Vec<u64> = Vec::new();
    let mut i: usize = a.len();
    let ghost vb = value(b@);
    proof {
        lemma_radix_values();
        lemma_value_lower(b@);
        lemma_weight_pos::<u64>((b@.len() - 1) as nat);
        assert(a@.skip(i as int) =~= Seq::<u64>::empty());
        assert(q@.skip(i as int) =~= Seq::<u64>::empty());
        assert(0 * vb == 0) by (nonlinear_arith);
    }
    while i > 0
        invariant
            i <= a@.len(),
            q@.len() == a@.len(),
            b@.len() > 0,
            normalized(b@),
            normalized(rem@),
            vb == value(b@),
            value(rem@) < vb,
            weight::<u64>(1) == RADIX,
            value(a@.skip(i as int)) == value(q@.skip(i as int)) * vb + value(rem@),
        decreases i,
    {
        let x = a[i - 1];
        let ghost before = rem@;
        let ghost r0 = value(rem@);
        rem.insert(0, x);
        proof {
            assert(rem@.skip(1) =~= before);
            lemma_value_head(rem@);
            assert(x + RADIX * r0 < RADIX * vb) by (nonlinear_arith)
                requires
                    x < RADIX,
                    r0 + 1 <= vb,
            ;
        }
        let (digit, rest) = div_digit(rem.as_slice(), b);
        let ghost q0 = q@;
        q.set(i - 1, digit);
        proof {
            let hi = value(q0.skip(i as int));
            let t = value(rem@);
            vstd::arithmetic::div_mod::lemma_fundamental_div_mod(t as int, vb as int);
            vstd::arithmetic::div_mod::lemma_mod_bound(t as int, vb as int);
            assert(q@.skip(i - 1).skip(1) =~= q0.skip(i as int));
            assert(a@.skip(i - 1).skip(1) =~= a@.skip(i as int));
            lemma_value_head(q@.skip(i - 1));
            lemma_value_head(a@.skip(i - 1));
            let r1 = value(rest@);
            assert(x + RADIX * (hi * vb + r0) == (digit + RADIX * hi) * vb + r1)
                by (nonlinear_arith)
                requires
                    vb * digit + r1 == x + RADIX * r0,
            ;
        }
        rem = rest;
        i -= 1;
    }
    proof {
        assert(a@.skip(0) =~= a@);
        assert(q@.skip(0) =~= q@);
        vstd::arithmetic::div_mod::lemma_fundamental_div_mod_converse(
            value(a@) as int,
            vb as int,
            value(q@) as int,
            value(rem@) as int,
        );
    }
    trim(&mut q);
    (q, rem)
}

/// Scaling both operands leaves the quotient, and scales the remainder.
proof fn lemma_scaled_division(a: nat, b: nat, p: nat)
    requires
        b > 0,
        p > 0,
    ensures
        b * p > 0,
        (a * p) / (b * p) == a / b,
        ((a * p) % (b * p)) / p == a % b,
{
    let q = a / b;
    let r = a % b;
    vstd::arithmetic::div_mod::lemma_fundamental_div_mod(a as int, b as int);
    vstd::arithmetic::div_mod::lemma_mod_bound(a as int, b as int);
    assert(b * p > 0) by (nonlinear_arith)
        requires
            b > 0,
            p > 0,
    ;
    assert(a * p == q * (b * p) + r * p && 0 <= r * p && r * p < b * p) by (nonlinear_arith)
        requires
            a == b * q + r,
            0 <= r < b,
            p > 0,
    ;
    vstd::arithmetic::div_mod::lemma_fundamental_div_mod_converse(
        (a * p) as int,
        (b * p) as int,
        q as int,
        (r * p) as int,
    );
    vstd::arithmetic::div_mod::lemma_div_by_multiple(r as int, p as int);
}

/// Quotient and remainder of two numerals.
pub(crate) fn div_rem(a: &[u64], b: &[u64]) -> (r: (Vec<u64>, Vec<u64>))
    requires
        b@.len() > 0,
        normalized(b@),
    ensures
        value(r.0@) == value(a@) / value(b@),
        value(r.1@) == value(a@) % value(b@),
        normalized(r.0@),
        normalized(r.1@),
{
    // With its top bit set, a divisor yields digit estimates that are off by two at most.
    let room = leading_room(b[b.len() - 1]);
    let scaled_b = shl(b, room);
    let scaled_a = shl(a, room);
    proof {
        lemma_value_lower(b@);
        lemma_weight_pos::<u64>((b@.len() - 1) as nat);
        lemma_pow2_pos(room as nat);
        lemma_scaled_division(value(a@), value(b@), pow2(room as nat));
    }
    let (q, scaled_rem) = div_long(scaled_a.as_slice(), scaled_b.as_slice());
    let rem = shr(scaled_rem.as_slice(), room);
    (q, rem)
}

} // verus!
