//! Arithmetic on little-endian sequences of 64-bit limbs.
use vstd::prelude::*;
use vstd::arithmetic::power2::{lemma_pow2_adds, lemma_pow2_pos, pow2};
use crate::bitwise::{lemma_concat, BitOp};
use crate::positional::{
    digit_at, lemma_low_value, lemma_low_value_step, lemma_radix_values, lemma_value_append,
    lemma_value_bound, lemma_value_head, lemma_value_push, lemma_value_split, lemma_value_update,
    lemma_weight_adds, lemma_weight_pos, lemma_weight_step, low_value, value, weight,
};

verus! {

/// The number of bits in a limb.
pub const LIMB_BITS: usize = 64;

/// The first number that does not fit a limb.
pub const RADIX: u128 = 0x1_0000_0000_0000_0000;

/// The top limb, if there is one, is not zero.
pub open spec fn normalized(s: Seq<u64>) -> bool {
    s.len() > 0 ==> s.last() != 0
}

/// Splits a double-width word into its low and its high limb.
pub(crate) fn split(t: u128) -> (r: (u64, u64))
    ensures
        t == r.0 + r.1 * RADIX,
{
    let lo = t as u64;
    let hi = (t >> 64) as u64;
    assert(t == (t as u64) as u128 + ((t >> 64) as u64) as u128 * 0x1_0000_0000_0000_0000u128)
        by (bit_vector);
    (lo, hi)
}

/// The limb at position `i`, which is zero past the end.
pub(crate) fn limb(s: &[u64], i: usize) -> (r: u64)
    ensures
        r == digit_at(s@, i as int),
{
    if i < s.len() {
        s[i]
    } else {
        0
    }
}

/// Drops the zero limbs at the top.
pub(crate) fn trim(data: &mut Vec<u64>)
    ensures
        value(final(data)@) == value(old(data)@),
        normalized(final(data)@),
{
    while data.len() > 0 && data[data.len() - 1] == 0
        invariant
            value(data@) == value(old(data)@),
        decreases data.len(),
    {
        proof {
            assert(0 * weight::<u64>((data@.len() - 1) as nat) == 0) by (nonlinear_arith);
        }
        data.pop();
    }
}

/// `n` zero limbs.
pub(crate) fn zeros(n: usize) -> (r: Vec<u64>)
    ensures
        r@.len() == n,
        value(r@) == 0,
        forall|i: int| 0 <= i < n ==> r@[i] == 0,
{
    let mut r: Vec<u64> = Vec::new();
    let mut i: usize = 0;
    while i < n
        invariant
            i <= n,
            r@.len() == i,
            value(r@) == 0,
            forall|k: int| 0 <= k < i ==> r@[k] == 0,
        decreases n - i,
    {
        proof {
            lemma_value_push(r@, 0u64);
            assert(0 * weight::<u64>(i as nat) == 0) by (nonlinear_arith);
        }
        r.push(0);
        i += 1;
    }
    r
}

/// The same limbs in a new vector, from position `from` on.
pub(crate) fn copy_from(s: &[u64], from: usize) -> (r: Vec<u64>)
    requires
        from <= s@.len(),
    ensures
        r@ == s@.skip(from as int),
{
    let mut r: Vec<u64> = Vec::new();
    let mut i: usize = from;
    while i < s.len()
        invariant
            from <= i <= s@.len(),
            r@ == s@.subrange(from as int, i as int),
        decreases s@.len() - i,
    {
        r.push(s[i]);
        i += 1;
    }
    r
}

/// The larger of two counts.
pub(crate) fn larger(a: usize, b: usize) -> (r: usize)
    ensures
        r == if a >= b {
            a
        } else {
            b
        },
{
    if a >= b {
        a
    } else {
        b
    }
}

/// The sum of two numerals.
pub(crate) fn add_limbs(a: &[u64], b: &[u64]) -> (r: Vec<u64>)
    ensures
        value(r@) == value(a@) + value(b@),
        normalized(r@),
{
    let n = larger(a.len(), b.len());
    let mut out: Vec<u64> = Vec::new();
    let mut carry: u64 = 0;
    let mut i: usize = 0;
    proof {
        lemma_radix_values();
        lemma_low_value_step(a@, 0);
        lemma_low_value_step(b@, 0);
    }
    while i < n
        invariant
            i <= n,
            out@.len() == i,
            carry <= 1,
            weight::<u64>(1) == RADIX,
            value(out@) + carry * weight::<u64>(i as nat) == low_value(a@, i as nat) + low_value(
                b@,
                i as nat,
            ),
        decreases n - i,
    {
        let x = limb(a, i);
        let y = limb(b, i);
        let (lo, hi) = split(x as u128 + y as u128 + carry as u128);
        proof {
            let w = weight::<u64>(i as nat);
            lemma_low_value_step(a@, i as nat);
            lemma_low_value_step(b@, i as nat);
            lemma_value_push(out@, lo);
            lemma_weight_step::<u64>(i as nat);
            assert(lo * w + hi * (RADIX * w) == x * w + y * w + carry * w) by (nonlinear_arith)
                requires
                    lo + hi * RADIX == x + y + carry,
            ;
        }
        out.push(lo);
        carry = hi;
        i += 1;
    }
    proof {
        lemma_low_value_step(a@, n as nat);
        lemma_low_value_step(b@, n as nat);
        lemma_value_push(out@, carry);
    }
    out.push(carry);
    trim(&mut out);
    out
}

/// The difference of two numerals, the first worth no less than the second.
pub(crate) fn sub_limbs(a: &[u64], b: &[u64]) -> (r: Vec<u64>)
    requires
        value(b@) <= value(a@),
    ensures
        value(r@) == value(a@) - value(b@),
        normalized(r@),
{
    let n = larger(a.len(), b.len());
    let mut out: Vec<u64> = Vec::new();
    let mut borrow: u64 = 0;
    let mut i: usize = 0;
    proof {
        lemma_radix_values();
        lemma_low_value_step(a@, 0);
        lemma_low_value_step(b@, 0);
    }
    while i < n
        invariant
            i <= n,
            out@.len() == i,
            borrow <= 1,
            weight::<u64>(1) == RADIX,
            value(out@) + low_value(b@, i as nat) == low_value(a@, i as nat) + borrow * weight::<
                u64,
            >(i as nat),
        decreases n - i,
    {
        let x = limb(a, i);
        let y = limb(b, i);
        let (lo, hi) = split(RADIX + x as u128 - y as u128 - borrow as u128);
        let next = 1 - hi;
        proof {
            let w = weight::<u64>(i as nat);
            lemma_low_value_step(a@, i as nat);
            lemma_low_value_step(b@, i as nat);
            lemma_value_push(out@, lo);
            lemma_weight_step::<u64>(i as nat);
            assert(lo * w + y * w + borrow * w == x * w + next * (RADIX * w)) by (nonlinear_arith)
                requires
                    lo + y + borrow == x + next * RADIX,
            ;
        }
        out.push(lo);
        borrow = next;
        i += 1;
    }
    proof {
        lemma_low_value_step(a@, n as nat);
        lemma_low_value_step(b@, n as nat);
        lemma_value_bound(out@);
        if borrow == 1 {
            assert(1 * weight::<u64>(n as nat) == weight::<u64>(n as nat));
        }
    }
    trim(&mut out);
    out
}

/// Adds `scalar` times the low `n` limbs of `m`, and `carry_in`, to the limbs of `acc` from
/// position `offset` on. What does not fit the `n` limbs there is returned.
pub(crate) fn mul_acc(
    acc: &mut Vec<u64>,
    offset: usize,
    scalar: u64,
    m: &[u64],
    n: usize,
    carry_in: u64,
) -> (carry: u64)
    requires
        offset + n <= old(acc)@.len(),
    ensures
        final(acc)@.len() == old(acc)@.len(),
        final(acc)@.skip(offset + n) == old(acc)@.skip(offset + n),
        value(final(acc)@) + carry * weight::<u64>((offset + n) as nat) == value(old(acc)@) + (
        scalar * low_value(m@, n as nat) + carry_in) * weight::<u64>(offset as nat),
{
    let mut carry: u64 = carry_in;
    let mut j: usize = 0;
    let ghost w0 = weight::<u64>(offset as nat);
    let ghost start = acc@;
    proof {
        lemma_radix_values();
        lemma_low_value_step(m@, 0);
        assert(scalar * 0 == 0) by (nonlinear_arith);
    }
    while j < n
        invariant
            j <= n,
            offset + n <= acc.len(),
            acc@.len() == start.len(),
            w0 == weight::<u64>(offset as nat),
            weight::<u64>(1) == RADIX,
            forall|k: int| offset + j <= k < start.len() ==> acc@[k] == start[k],
            value(acc@) + carry * weight::<u64>((offset + j) as nat) == value(start) + (scalar
                * low_value(m@, j as nat) + carry_in) * w0,
        decreases n - j,
    {
        let x = limb(m, j);
        let a = acc[offset + j];
        proof {
            assert(scalar * x + a + carry < RADIX * RADIX && scalar * x <= 0xffff_ffff_ffff_ffff
                * 0xffff_ffff_ffff_ffff) by (nonlinear_arith)
                requires
                    0 <= scalar < RADIX,
                    0 <= x < RADIX,
                    0 <= a < RADIX,
                    0 <= carry < RADIX,
                    RADIX == 0x1_0000_0000_0000_0000,
            ;
        }
        let (lo, hi) = split(scalar as u128 * x as u128 + a as u128 + carry as u128);
        proof {
            let w = weight::<u64>((offset + j) as nat);
            let wj = weight::<u64>(j as nat);
            let l = low_value(m@, j as nat);
            lemma_weight_step::<u64>((offset + j) as nat);
            lemma_weight_adds::<u64>(offset as nat, j as nat);
            lemma_low_value_step(m@, j as nat);
            lemma_value_update(acc@, offset + j, lo);
            assert(lo * w + hi * (RADIX * w) == scalar * x * w + a * w + carry * w)
                by (nonlinear_arith)
                requires
                    lo + hi * RADIX == scalar * x + a + carry,
            ;
            assert((scalar * (l + x * wj) + carry_in) * w0 == (scalar * l + carry_in) * w0 + scalar
                * x * (w0 * wj)) by (nonlinear_arith);
        }
        acc.set(offset + j, lo);
        carry = hi;
        j += 1;
    }
    proof {
        assert(acc@.skip(offset + n) =~= start.skip(offset + n));
    }
    carry
}

/// The product of two numerals.
pub(crate) fn mul_limbs(a: &[u64], b: &[u64]) -> (r: Vec<u64>)
    ensures
        value(r@) == value(a@) * value(b@),
        normalized(r@),
{
    let mut out: Vec<u64> = zeros(b.len());
    let mut i: usize = 0;
    let ghost vb = value(b@);
    proof {
        lemma_low_value_step(a@, 0);
        assert(0 * vb == 0) by (nonlinear_arith);
    }
    while i < a.len()
        invariant
            i <= a@.len(),
            out@.len() == b@.len() + i,
            vb == value(b@),
            value(out@) == low_value(a@, i as nat) * vb,
        decreases a@.len() - i,
    {
        let carry = mul_acc(&mut out, i, a[i], b, b.len(), 0);
        proof {
            let w = weight::<u64>(i as nat);
            let l = low_value(a@, i as nat);
            let d = a@[i as int];
            lemma_low_value_step(a@, i as nat);
            lemma_low_value_step(b@, b@.len() as nat);
            lemma_value_push(out@, carry);
            assert((l + d * w) * vb == l * vb + (d * vb + 0) * w) by (nonlinear_arith);
        }
        out.push(carry);
        i += 1;
    }
    proof {
        lemma_low_value_step(a@, a@.len() as nat);
    }
    trim(&mut out);
    out
}

/// A numeral times one limb.
pub(crate) fn mul_limb(a: &[u64], m: u64) -> (r: Vec<u64>)
    ensures
        value(r@) == m * value(a@),
        normalized(r@),
{
    let mut out: Vec<u64> = zeros(a.len());
    let carry = mul_acc(&mut out, 0, m, a, a.len(), 0);
    proof {
        lemma_low_value_step(a@, a@.len() as nat);
        lemma_value_push(out@, carry);
        lemma_radix_values();
        assert((m * value(a@) + 0) * 1 == m * value(a@)) by (nonlinear_arith);
    }
    out.push(carry);
    trim(&mut out);
    out
}

/// Quotient and remainder by one limb.
pub(crate) fn div_limb(a: &[u64], d: u64) -> (r: (Vec<u64>, u64))
    requires
        d > 0,
    ensures
        value(r.0@) == value(a@) / (d as nat),
        r.1 == value(a@) % (d as nat),
        normalized(r.0@),
{
    let mut q: Vec<u64> = zeros(a.len());
    let mut rem: u64 = 0;
    let mut i: usize = a.len();
    proof {
        lemma_radix_values();
        assert(a@.skip(i as int) =~= Seq::<u64>::empty());
        assert(q@.skip(i as int) =~= Seq::<u64>::empty());
        assert(0 * d == 0) by (nonlinear_arith);
    }
    while i > 0
        invariant
            i <= a@.len(),
            q@.len() == a@.len(),
            rem < d,
            weight::<u64>(1) == RADIX,
            value(a@.skip(i as int)) == value(q@.skip(i as int)) * d + rem,
        decreases i,
    {
        let x = a[i - 1];
        let t: u128 = rem as u128 * RADIX + x as u128;
        let digit: u128 = t / (d as u128);
        let next: u128 = t % (d as u128);
        proof {
            vstd::arithmetic::div_mod::lemma_fundamental_div_mod(t as int, d as int);
            assert(digit < RADIX) by (nonlinear_arith)
                requires
                    d * digit + next == rem * RADIX + x,
                    rem + 1 <= d,
                    x < RADIX,
                    next >= 0,
                    d > 0,
            ;
        }
        let ghost before = q@;
        q.set(i - 1, digit as u64);
        proof {
            let hi = value(before.skip(i as int));
            assert(q@.skip(i - 1).skip(1) =~= before.skip(i as int));
            assert(a@.skip(i - 1).skip(1) =~= a@.skip(i as int));
            lemma_value_head(q@.skip(i - 1));
            lemma_value_head(a@.skip(i - 1));
            assert(x + RADIX * (hi * d + rem) == (digit + RADIX * hi) * d + next)
                by (nonlinear_arith)
                requires
                    d * digit + next == rem * RADIX + x,
            ;
        }
        rem = next as u64;
        i -= 1;
    }
    proof {
        assert(a@.skip(0) =~= a@);
        assert(q@.skip(0) =~= q@);
        vstd::arithmetic::div_mod::lemma_fundamental_div_mod_converse(
            value(a@) as int,
            d as int,
            value(q@) as int,
            rem as int,
        );
    }
    trim(&mut q);
    (q, rem)
}

/// Whether the first numeral is worth less than the second.
pub(crate) fn less(a: &[u64], b: &[u64]) -> (r: bool)
    ensures
        r == (value(a@) < value(b@)),
{
    let n = larger(a.len(), b.len());
    let mut i: usize = n;
    proof {
        lemma_low_value_step(a@, n as nat);
        lemma_low_value_step(b@, n as nat);
    }
    while i > 0
        invariant
            i <= n,
            value(a@) - low_value(a@, i as nat) == value(b@) - low_value(b@, i as nat),
        decreases i,
    {
        let x = limb(a, i - 1);
        let y = limb(b, i - 1);
        proof {
            let k = (i - 1) as nat;
            lemma_low_value_step(a@, k);
            lemma_low_value_step(b@, k);
            lemma_low_value(a@, k);
            lemma_low_value(b@, k);
            let w = weight::<u64>(k);
            assert((x < y ==> x * w + w <= y * w) && (y < x ==> y * w + w <= x * w))
                by (nonlinear_arith);
        }
        if x != y {
            return x < y;
        }
        i -= 1;
    }
    proof {
        lemma_low_value_step(a@, 0);
        lemma_low_value_step(b@, 0);
    }
    false
}

/// Whether two numerals are worth the same.
pub(crate) fn equal(a: &[u64], b: &[u64]) -> (r: bool)
    ensures
        r == (value(a@) == value(b@)),
{
    let less_ab = less(a, b);
    let less_ba = less(b, a);
    !less_ab && !less_ba
}

/// The bitwise operation on two numerals.
pub(crate) fn bitwise(op: BitOp, a: &[u64], b: &[u64]) -> (r: Vec<u64>)
    ensures
        value(r@) == op.on_nats(value(a@), value(b@)),
        normalized(r@),
{
    let n = larger(a.len(), b.len());
    let mut out: Vec<u64> = Vec::new();
    let mut i: usize = 0;
    proof {
        lemma_low_value_step(a@, 0);
        lemma_low_value_step(b@, 0);
    }
    while i < n
        invariant
            i <= n,
            out@.len() == i,
            value(out@) == op.on_nats(low_value(a@, i as nat), low_value(b@, i as nat)),
        decreases n - i,
    {
        let x = limb(a, i);
        let y = limb(b, i);
        let z = op.apply(x, y);
        proof {
            let w = weight::<u64>(i as nat);
            lemma_low_value_step(a@, i as nat);
            lemma_low_value_step(b@, i as nat);
            lemma_low_value(a@, i as nat);
            lemma_low_value(b@, i as nat);
            lemma_value_push(out@, z);
            lemma_concat(
                op,
                64 * i as nat,
                low_value(a@, i as nat),
                low_value(b@, i as nat),
                x as nat,
                y as nat,
            );
            assert(x * w == w * x && y * w == w * y && z * w == w * z) by (nonlinear_arith);
        }
        out.push(z);
        i += 1;
    }
    proof {
        lemma_low_value_step(a@, n as nat);
        lemma_low_value_step(b@, n as nat);
    }
    trim(&mut out);
    out
}

/// The power of two that shifts a limb by `r` bits.
fn bit_limb(r: usize) -> (m: u64)
    requires
        r < 64,
    ensures
        m == pow2(r as nat),
        m > 0,
{
    proof {
        vstd::bits::lemma_u64_pow2_no_overflow(r as nat);
        vstd::bits::lemma_u64_shl_is_mul(1, r as u64);
        lemma_pow2_pos(r as nat);
    }
    1u64 << (r as u64)
}

/// A shift by bits, as a shift by whole limbs and by the bits that are left.
proof fn lemma_shift_parts(n: usize)
    ensures
        pow2(n as nat) == weight::<u64>((n / 64) as nat) * pow2((n % 64) as nat),
{
    lemma_pow2_adds(64 * (n / 64) as nat, (n % 64) as nat);
}

/// A numeral times `2^n`.
pub(crate) fn shl(a: &[u64], n: usize) -> (r: Vec<u64>)
    ensures
        value(r@) == value(a@) * pow2(n as nat),
        normalized(r@),
{
    if a.len() == 0 {
        proof {
            assert(0 * pow2(n as nat) == 0) by (nonlinear_arith);
        }
        return Vec::new();
    }
    let mut out = zeros(n / LIMB_BITS);
    let mut scaled = mul_limb(a, bit_limb(n % LIMB_BITS));
    proof {
        let w = weight::<u64>((n / 64) as nat);
        let p = pow2((n % 64) as nat);
        let v = value(a@);
        lemma_value_append(out@, scaled@);
        lemma_shift_parts(n);
        assert(w * (p * v) == v * (w * p)) by (nonlinear_arith);
    }
    out.append(&mut scaled);
    trim(&mut out);
    out
}

/// A numeral divided by `2^n`.
pub(crate) fn shr(a: &[u64], n: usize) -> (r: Vec<u64>)
    ensures
        value(r@) == value(a@) / pow2(n as nat),
        normalized(r@),
{
    let q = n / LIMB_BITS;
    proof {
        lemma_shift_parts(n);
        lemma_pow2_pos((n % 64) as nat);
        lemma_weight_pos::<u64>(q as nat);
        vstd::arithmetic::div_mod::lemma_div_denominator(
            value(a@) as int,
            weight::<u64>(q as nat) as int,
            pow2((n % 64) as nat) as int,
        );
    }
    if q >= a.len() {
        proof {
            lemma_low_value_step(a@, q as nat);
            lemma_low_value(a@, q as nat);
            vstd::arithmetic::div_mod::lemma_basic_div(
                value(a@) as int,
                weight::<u64>(q as nat) as int,
            );
            vstd::arithmetic::div_mod::lemma_basic_div(0, pow2((n % 64) as nat) as int);
        }
        return Vec::new();
    }
    proof {
        lemma_value_split(a@, q as nat);
    }
    let top = copy_from(a, q);
    let (r, _rest) = div_limb(top.as_slice(), bit_limb(n % LIMB_BITS));
    r
}

} // verus!
