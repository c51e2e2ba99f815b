//! Numbers as bytes, and bytes as numbers.
use vstd::prelude::*;
use vstd::arithmetic::div_mod::lemma_fundamental_div_mod_converse;
use crate::positional::{
    lemma_digit_at, lemma_low_value_step, lemma_radix_values, lemma_value_head, lemma_value_push,
    lemma_weight_adds, lemma_weight_pos, lemma_weight_step, low_value, value, weight,
};
use crate::limbs::{normalized, trim};

verus! {

/// The `len` low bytes of `v`, least significant byte first.
pub open spec fn le_bytes(v: nat, len: nat) -> Seq<u8> {
    Seq::new(len, |i: int| ((v / weight::<u8>(i as nat)) % 0x100) as u8)
}

/// The `len` low bytes of `v`, most significant byte first.
pub open spec fn be_bytes(v: nat, len: nat) -> Seq<u8> {
    le_bytes(v, len).reverse()
}

/// How many bytes it takes to write `v` without leading zeros.
pub open spec fn byte_len(v: nat) -> nat
    decreases v,
{
    if v == 0 {
        0
    } else {
        1 + byte_len(v / 0x100)
    }
}

/// Bytes are the bytes of what they are worth.
pub proof fn lemma_le_bytes_of_value(s: Seq<u8>)
    ensures
        le_bytes(value(s), s.len()) == s,
{
    lemma_radix_values();
    assert forall|i: int| 0 <= i < s.len() implies le_bytes(value(s), s.len())[i] == s[i] by {
        lemma_digit_at(s, i as nat);
    }
    assert(le_bytes(value(s), s.len()) =~= s);
}

/// The low bytes of a number are worth the number's remainder.
pub proof fn lemma_value_of_le_bytes(v: nat, len: nat)
    ensures
        le_bytes(v, len).len() == len,
        value(le_bytes(v, len)) == v % weight::<u8>(len),
    decreases len,
{
    lemma_radix_values();
    lemma_weight_pos::<u8>(len);
    if len == 0 {
        assert(v % 1 == 0);
    } else {
        let k = (len - 1) as nat;
        let w = weight::<u8>(k);
        let d = ((v / w) % 0x100) as u8;
        lemma_weight_pos::<u8>(k);
        lemma_value_of_le_bytes(v, k);
        assert(le_bytes(v, len) =~= le_bytes(v, k).push(d));
        lemma_value_push(le_bytes(v, k), d);
        lemma_weight_step::<u8>(k);
        vstd::arithmetic::div_mod::lemma_mod_breakdown(v as int, w as int, 0x100);
        assert(w * d == d * w) by (nonlinear_arith);
    }
}

/// Bytes without leading zeros are as many as their number takes.
pub proof fn lemma_byte_len_exact(s: Seq<u8>)
    requires
        s.len() > 0 ==> s.last() != 0,
    ensures
        byte_len(value(s)) == s.len(),
    decreases s.len(),
{
    if s.len() > 0 {
        let rest = s.skip(1);
        lemma_radix_values();
        lemma_value_head(s);
        lemma_byte_len_exact(rest);
        lemma_fundamental_div_mod_converse(
            value(s) as int,
            0x100,
            value(rest) as int,
            s[0] as int,
        );
        crate::positional::lemma_value_lower(s);
        lemma_weight_pos::<u8>((s.len() - 1) as nat);
    }
}

/// A number takes at most `n` bytes exactly if it is below `256^n`.
pub proof fn lemma_byte_len_bound(v: nat, n: nat)
    ensures
        byte_len(v) <= n <==> v < weight::<u8>(n),
    decreases v,
{
    lemma_radix_values();
    if v == 0 {
        lemma_weight_pos::<u8>(n);
    } else if n == 0 {
    } else {
        let k = (n - 1) as nat;
        lemma_byte_len_bound(v / 0x100, k);
        lemma_weight_step::<u8>(k);
    }
}

/// Eight bytes carry the weight of one limb.
pub proof fn lemma_eight_bytes(n: nat)
    ensures
        weight::<u8>(8 * n) == weight::<u64>(n),
{
}

/// The bytes of a numeral without leading zeros, least significant byte first.
pub(crate) fn limbs_to_bytes(a: &[u64]) -> (r: Vec<u8>)
    ensures
        r@ == le_bytes(value(a@), byte_len(value(a@))),
{
    let mut out: Vec<u8> = Vec::new();
    let mut i: usize = 0;
    proof {
        lemma_radix_values();
        lemma_low_value_step(a@, 0);
    }
    while i < a.len()
        invariant
            i <= a@.len(),
            out@.len() == 8 * i,
            weight::<u8>(1) == 0x100,
            weight::<u64>(1) == 0x1_0000_0000_0000_0000,
            value(out@) == low_value(a@, i as nat),
        decreases a@.len() - i,
    {
        let mut rest: u64 = a[i];
        let mut k: usize = 0;
        proof {
            lemma_eight_bytes(1);
            lemma_eight_bytes(i as nat);
            lemma_low_value_step(a@, i as nat);
        }
        while k < 8
            invariant
                i < a@.len(),
                k <= 8,
                out@.len() == 8 * i + k,
                weight::<u8>(1) == 0x100,
                rest < weight::<u8>((8 - k) as nat),
                value(out@) + rest * weight::<u8>((8 * i + k) as nat) == low_value(
                    a@,
                    (i + 1) as nat,
                ),
            decreases 8 - k,
        {
            let byte = (rest % 0x100) as u8;
            let next = rest / 0x100;
            proof {
                let w = weight::<u8>((8 * i + k) as nat);
                lemma_value_push(out@, byte);
                lemma_weight_step::<u8>((8 * i + k) as nat);
                lemma_weight_step::<u8>((7 - k) as nat);
                assert(rest * w == byte * w + next * (0x100 * w)) by (nonlinear_arith)
                    requires
                        rest == byte + 0x100 * next,
                ;
            }
            out.push(byte);
            rest = next;
            k += 1;
        }
        proof {
            lemma_radix_values();
            assert(rest * weight::<u8>((8 * i + 8) as nat) == 0) by (nonlinear_arith)
                requires
                    rest == 0,
            ;
        }
        i += 1;
    }
    proof {
        lemma_low_value_step(a@, a@.len());
    }
    while out.len() > 0 && out[out.len() - 1] == 0
        invariant
            value(out@) == value(a@),
        decreases out.len(),
    {
        proof {
            assert(0 * weight::<u8>((out@.len() - 1) as nat) == 0) by (nonlinear_arith);
        }
        out.pop();
    }
    proof {
        lemma_byte_len_exact(out@);
        lemma_le_bytes_of_value(out@);
    }
    out
}

/// The numeral that bytes stand for, least significant byte first.
pub(crate) fn limbs_from_bytes(bytes: &[u8]) -> (r: Vec<u64>)
    ensures
        value(r@) == value(bytes@),
        normalized(r@),
{
    let mut out: Vec<u64> = Vec::new();
    let mut i: usize = 0;
    proof {
        lemma_radix_values();
        lemma_low_value_step(bytes@, 0);
        lemma_eight_bytes(0);
    }
    while i < bytes.len()
        invariant
            i <= bytes@.len(),
            i < bytes@.len() ==> i == 8 * out@.len(),
            weight::<u8>(1) == 0x100,
            weight::<u8>(0) == 1,
            weight::<u64>(1) == 0x1_0000_0000_0000_0000,
            value(out@) == low_value(bytes@, i as nat),
        decreases bytes@.len() - i,
    {
        let ghost start = i as nat;
        let mut word: u128 = 0;
        let mut scale: u128 = 1;
        let mut k: usize = 0;
        let ghost base = weight::<u8>(start);
        proof {
            assert(0 * base == 0) by (nonlinear_arith);
            lemma_eight_bytes(out@.len());
            lemma_eight_bytes(1);
        }
        while k < 8 && i < bytes.len()
            invariant
                k <= 8,
                i == start + k,
                i <= bytes@.len(),
                weight::<u8>(1) == 0x100,
                weight::<u8>(8) == 0x1_0000_0000_0000_0000,
                base == weight::<u8>(start),
                scale == weight::<u8>(k as nat),
                word < scale,
                low_value(bytes@, start) + word * base == low_value(bytes@, i as nat),
            decreases 8 - k,
        {
            let x = bytes[i];
            proof {
                lemma_low_value_step(bytes@, i as nat);
                lemma_weight_step::<u8>(k as nat);
                lemma_weight_adds::<u8>(start, k as nat);
                crate::positional::lemma_weight_monotone::<u8>((k + 1) as nat, 8);
                assert((word + x * scale) * base == word * base + x * (base * scale) && x * scale
                    + scale <= 0x100 * scale) by (nonlinear_arith)
                    requires
                        x + 1 <= 0x100,
                ;
            }
            word = word + (x as u128) * scale;
            scale = scale * 0x100;
            k += 1;
            i += 1;
        }
        proof {
            crate::positional::lemma_weight_monotone::<u8>(k as nat, 8);
            lemma_value_push(out@, word as u64);
        }
        out.push(word as u64);
    }
    proof {
        lemma_low_value_step(bytes@, bytes@.len());
    }
    trim(&mut out);
    out
}

/// The same bytes in the opposite order.
pub(crate) fn reversed(bytes: &[u8]) -> (r: Vec<u8>)
    ensures
        r@ == bytes@.reverse(),
{
    let mut out: Vec<u8> = Vec::new();
    let mut i: usize = bytes.len();
    while i > 0
        invariant
            i <= bytes@.len(),
            out@.len() == bytes@.len() - i,
            forall|k: int| 0 <= k < out@.len() ==> out@[k] == bytes@[bytes@.len() - 1 - k],
        decreases i,
    {
        out.push(bytes[i - 1]);
        i -= 1;
    }
    proof {
        assert(out@ =~= bytes@.reverse());
    }
    out
}

} // verus!
