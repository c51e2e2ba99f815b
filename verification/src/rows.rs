//! The two row kernels of coarsely integrated operand scanning (CIOS), the word-by-word form of
//! Montgomery multiplication.
use vstd::prelude::*;
use vstd::arithmetic::div_mod::lemma_fundamental_div_mod_converse;
use crate::limbs::{limb, mul_acc, split, RADIX};
use crate::positional::{
    lemma_low_value, lemma_low_value_step, lemma_radix_values, lemma_value_push, lemma_value_split,
    lemma_weight_pos, lemma_weight_step, low_value, value, weight,
};

verus! {

/// `acc` with its low `n` limbs replaced by `low`.
pub open spec fn with_low_limbs(acc: nat, n: nat, low: nat) -> nat {
    low + (acc / weight::<u64>(n)) * weight::<u64>(n)
}

/// What a row adds up to: `scalar` times `n` limbs of `m`, on top of `n` limbs of `acc` and a
/// carry.
pub open spec fn row_sum(scalar: nat, m: nat, acc: nat, n: nat, carry_in: nat) -> nat {
    scalar * (m % weight::<u64>(n)) + acc % weight::<u64>(n) + carry_in
}

/// The position from which a shifted row takes its top word: `n`, and never below one, for the
/// lowest word is read even where there is none to write.
pub open spec fn shifted_row_len(n: nat) -> nat {
    if n == 0 {
        1
    } else {
        n
    }
}

/// What a shifted row adds up to: the row on top of `acc` with the word `acc_hi` above it, less
/// the lowest word.
pub open spec fn shifted_row_sum(scalar: nat, m: nat, acc: nat, n: nat, acc_hi: nat) -> nat {
    let k = shifted_row_len(n);
    (row_sum(scalar, m, acc, k, 0) + acc_hi * weight::<u64>(k)) / weight::<u64>(1)
}

/// Zero limbs at the top until there are `n`.
fn extend_to(data: &mut Vec<u64>, n: usize)
    ensures
        value(final(data)@) == value(old(data)@),
        final(data)@.len() >= n,
{
    while data.len() < n
        invariant
            value(data@) == value(old(data)@),
        decreases n - data.len(),
    {
        proof {
            lemma_value_push(data@, 0u64);
            assert(0 * weight::<u64>(data@.len()) == 0) by (nonlinear_arith);
        }
        data.push(0);
    }
}

/// A number whose low limbs sum to `sum` leaves `sum % w` there and carries `sum / w`.
proof fn lemma_row_result(old_value: nat, new_value: nat, n: nat, sum: nat, carry: nat)
    requires
        new_value / weight::<u64>(n) == old_value / weight::<u64>(n),
        new_value % weight::<u64>(n) + carry * weight::<u64>(n) == sum,
    ensures
        new_value == with_low_limbs(old_value, n, sum % weight::<u64>(n)),
        carry == sum / weight::<u64>(n),
{
    let w = weight::<u64>(n);
    lemma_weight_pos::<u64>(n);
    let low = new_value % w;
    vstd::arithmetic::div_mod::lemma_mod_bound(new_value as int, w as int);
    vstd::arithmetic::div_mod::lemma_fundamental_div_mod(new_value as int, w as int);
    lemma_fundamental_div_mod_converse(sum as int, w as int, carry as int, low as int);
    vstd::arithmetic::mul::lemma_mul_is_commutative(w as int, (new_value / w) as int);
}

/// Adds `scalar` times the low `n` limbs of `m`, and `carry_in`, to the low `n` limbs of `acc`,
/// and returns the carry out of them.
pub(crate) fn add_row(
    acc: &mut Vec<u64>,
    scalar: u64,
    m: &[u64],
    n: usize,
    carry_in: u64,
) -> (carry: u64)
    ensures
        ({
            let sum = row_sum(
                scalar as nat,
                value(m@),
                value(old(acc)@),
                n as nat,
                carry_in as nat,
            );
            &&& value(final(acc)@) == with_low_limbs(
                value(old(acc)@),
                n as nat,
                sum % weight::<u64>(n as nat),
            )
            &&& carry == sum / weight::<u64>(n as nat)
        }),
{
    let ghost given = value(acc@);
    extend_to(acc, n);
    let ghost before = acc@;
    let carry = mul_acc(acc, 0, scalar, m, n, carry_in);
    proof {
        let k = n as nat;
        let x = scalar * low_value(m@, k) + carry_in;
        lemma_radix_values();
        lemma_value_split(before, k);
        lemma_value_split(acc@, k);
        lemma_low_value(m@, k);
        assert(x * 1 == x);
        let sum = row_sum(scalar as nat, value(m@), given, k, carry_in as nat);
        lemma_row_result(given, value(acc@), k, sum, carry as nat);
    }
    carry
}

/// Adds `scalar` times the low `n` limbs of `m` to the low `n` limbs of `acc` with the limb
/// `acc_hi` above them, drops the lowest limb, and returns the carry out of the low `n` limbs.
pub(crate) fn add_row_shifted(
    acc: &mut Vec<u64>,
    scalar: u64,
    m: &[u64],
    n: usize,
    acc_hi: u64,
) -> (carry_out: u64)
    ensures
        ({
            let k = shifted_row_len(n as nat);
            let sum = shifted_row_sum(
                scalar as nat,
                value(m@),
                value(old(acc)@),
                n as nat,
                acc_hi as nat,
            );
            &&& value(final(acc)@) == if n == 0 {
                value(old(acc)@)
            } else {
                with_low_limbs(value(old(acc)@), n as nat, sum % weight::<u64>(n as nat))
            }
            &&& carry_out == sum / weight::<u64>(k)
        }),
{
    let ghost given = value(acc@);
    extend_to(acc, n);
    let ghost start = acc@;
    let m0 = limb(m, 0);
    let a0 = limb(acc.as_slice(), 0);
    proof {
        lemma_radix_values();
        lemma_wide_product(scalar, m0, a0, 0);
    }
    let (dropped, p0_hi) = split(scalar as u128 * m0 as u128 + a0 as u128);
    let mut carry: u64 = p0_hi;
    let mut j: usize = 1;
    proof {
        lemma_low_value_step(m@, 0);
        lemma_low_value_step(start, 0);
        assert(m0 * 1 == m0 && a0 * 1 == a0 && carry * 1 == carry);
        if n > 0 {
            assert(acc@.take(0) =~= Seq::<u64>::empty());
        }
    }
    while j < n
        invariant
            1 <= j,
            n > 0 ==> j <= n,
            n <= acc.len(),
            acc@.len() == start.len(),
            weight::<u64>(0) == 1,
            weight::<u64>(1) == RADIX,
            forall|i: int| j - 1 <= i < start.len() ==> acc@[i] == start[i],
            n == 0 ==> j == 1 && acc@ == start && dropped + RADIX * carry == scalar * low_value(
                m@,
                1,
            ) + low_value(start, 1),
            n > 0 ==> dropped + RADIX * (value(acc@.take(j - 1)) + carry * weight::<u64>(
                (j - 1) as nat,
            )) == scalar * low_value(m@, j as nat) + low_value(start, j as nat),
        decreases n - j,
    {
        let x = limb(m, j);
        let a = acc[j];
        proof {
            lemma_wide_product(scalar, x, a, carry);
        }
        let (lo, hi) = split(scalar as u128 * x as u128 + a as u128 + carry as u128);
        let ghost written = acc@.take(j - 1);
        acc.set(j - 1, lo);
        proof {
            let w = weight::<u64>((j - 1) as nat);
            let wj = weight::<u64>(j as nat);
            let done = value(written);
            let lm = low_value(m@, j as nat);
            assert(acc@.take(j as int) =~= written.push(lo));
            lemma_value_push(written, lo);
            lemma_low_value_step(m@, j as nat);
            lemma_low_value_step(start, j as nat);
            lemma_weight_step::<u64>((j - 1) as nat);
            assert(RADIX * (done + lo * w + hi * (RADIX * w)) == RADIX * (done + carry * w) + scalar
                * (x * (RADIX * w)) + a * (RADIX * w)) by (nonlinear_arith)
                requires
                    lo + hi * RADIX == scalar * x + a + carry,
            ;
            assert(scalar * (lm + x * wj) == scalar * lm + scalar * (x * wj)) by (nonlinear_arith);
        }
        carry = hi;
        j += 1;
    }
    let (sum, carry_out) = split(acc_hi as u128 + carry as u128);
    if n > 0 {
        let ghost written = acc@.take(n - 1);
        acc.set(n - 1, sum);
        proof {
            let k = n as nat;
            let w = weight::<u64>((n - 1) as nat);
            let wn = weight::<u64>(k);
            let done = value(written);
            assert(acc@.take(n as int) =~= written.push(sum));
            assert(acc@.skip(n as int) =~= start.skip(n as int));
            lemma_value_push(written, sum);
            lemma_weight_step::<u64>((n - 1) as nat);
            lemma_value_split(acc@, k);
            lemma_value_split(start, k);
            lemma_low_value(m@, k);
            lemma_low_value(start, k);
            let total = row_sum(scalar as nat, value(m@), given, k, 0);
            let top = (total + acc_hi * wn) as nat;
            let kept = done + sum * w + carry_out * wn;
            assert(top == dropped + RADIX * kept) by (nonlinear_arith)
                requires
                    top == dropped + RADIX * (done + carry * w) + acc_hi * (RADIX * w),
                    kept == done + sum * w + carry_out * (RADIX * w),
                    sum + carry_out * RADIX == acc_hi + carry,
            ;
            vstd::arithmetic::mul::lemma_mul_is_commutative(RADIX as int, kept as int);
            lemma_fundamental_div_mod_converse(
                top as int,
                RADIX as int,
                kept as int,
                dropped as int,
            );
            lemma_row_result(given, value(acc@), k, kept as nat, carry_out as nat);
        }
    } else {
        proof {
            let k: nat = 1;
            lemma_low_value(m@, k);
            lemma_low_value(start, k);
            let total = row_sum(scalar as nat, value(m@), given, k, 0);
            let top = (total + acc_hi * RADIX) as nat;
            let kept = carry + acc_hi;
            assert(top == dropped + RADIX * kept) by (nonlinear_arith)
                requires
                    top == dropped + RADIX * carry + acc_hi * RADIX,
                    kept == carry + acc_hi,
            ;
            vstd::arithmetic::mul::lemma_mul_is_commutative(RADIX as int, kept as int);
            lemma_fundamental_div_mod_converse(
                top as int,
                RADIX as int,
                kept as int,
                dropped as int,
            );
            lemma_fundamental_div_mod_converse(
                kept as int,
                RADIX as int,
                carry_out as int,
                sum as int,
            );
        }
    }
    carry_out
}

/// One limb product, with two limbs added, fits a double-width word.
proof fn lemma_wide_product(s: u64, x: u64, a: u64, c: u64)
    ensures
        s * x <= u128::MAX,
        s * x + a <= u128::MAX,
        s * x + a + c <= u128::MAX,
{
    assert(s * x <= 0xffff_ffff_ffff_ffff * 0xffff_ffff_ffff_ffff) by (nonlinear_arith)
        requires
            0 <= s <= 0xffff_ffff_ffff_ffff,
            0 <= x <= 0xffff_ffff_ffff_ffff,
    ;
}

} // verus!
