//! Fixed-width numbers to bytes and back.
use vstd::prelude::*;
use const_num_traits::ops::byte_slice::ByteSliceError;
use const_num_traits::{FromByteSlice, ToBytes};
use crate::biguint::BigUint;
use crate::bytes::{be_bytes, byte_len, le_bytes, lemma_byte_len_bound};
use crate::fixed_width::FixedWidthBigUint;
use crate::limbs::larger;
use crate::model::{limbs_for_bytes, FixedWidth};
use crate::positional::{value, weight};

verus! {

/// Declares `const_num_traits::ByteSliceError`, which tells why bytes were refused. No bytes are
/// refused here, so no value of it is ever made; nothing is claimed of it.
#[verifier::external_type_specification]
#[verifier::external_body]
pub struct ExByteSliceError(ByteSliceError);

/// The number of bytes in a limb.
pub const LIMB_BYTES: usize = 8;

/// From the first byte that a number does not need, its bytes are zero.
proof fn lemma_high_bytes_are_zero(v: nat, i: nat)
    requires
        byte_len(v) <= i,
    ensures
        (v / weight::<u8>(i)) % 0x100 == 0,
{
    lemma_byte_len_bound(v, i);
    vstd::arithmetic::div_mod::lemma_basic_div(v as int, weight::<u8>(i) as int);
}

/// Where there are more bytes than a number needs, the rest are zeros on top.
proof fn lemma_padded(v: nat, short: nat, long: nat)
    requires
        byte_len(v) <= short <= long,
    ensures
        forall|i: int| #![auto]
            0 <= i < long ==> le_bytes(v, long)[i] == if i < short {
                le_bytes(v, short)[i]
            } else {
                0
            },
{
    assert forall|i: int| #![auto] short <= i < long implies le_bytes(v, long)[i] == 0 by {
        lemma_high_bytes_are_zero(v, i as nat);
    }
}

/// The bytes of zero written with one byte.
proof fn lemma_zero_byte()
    ensures
        le_bytes(0, 1) == seq![0u8],
        be_bytes(0, 1) == seq![0u8],
{
    lemma_high_bytes_are_zero(0, 0);
    assert(le_bytes(0, 1) =~= seq![0u8]);
    assert(be_bytes(0, 1) =~= seq![0u8]);
}

impl ToBytes for FixedWidthBigUint {
    type Bytes = Vec<u8>;

    /// The bytes over the declared width, most significant first, and more of them where the
    /// number needs more.
    fn to_be_bytes(self) -> (r: Vec<u8>)
        requires
            self@.n_limbs * 8 <= usize::MAX,
        ensures
            r@ == self@.to_be_bytes(),
    {
        let expected = self.n_limbs * LIMB_BYTES;
        let bytes = self.inner.to_bytes_be();
        let ghost v = self@.value;
        let ghost len = crate::model::larger(1, byte_len(v));
        proof {
            lemma_zero_byte();
        }
        if bytes.len() >= expected {
            bytes
        } else {
            let mut padded: Vec<u8> = Vec::new();
            while padded.len() < expected - bytes.len()
                invariant
                    bytes@.len() < expected,
                    padded@.len() <= expected - bytes@.len(),
                    forall|i: int| 0 <= i < padded@.len() ==> padded@[i] == 0,
                decreases expected - bytes@.len() - padded@.len(),
            {
                padded.push(0);
            }
            let mut i: usize = 0;
            while i < bytes.len()
                invariant
                    i <= bytes@.len(),
                    bytes@.len() < expected,
                    padded@.len() == expected - bytes@.len() + i,
                    forall|k: int|
                        0 <= k < padded@.len() ==> padded@[k] == if k < expected - bytes@.len() {
                            0
                        } else {
                            bytes@[k - (expected - bytes@.len())]
                        },
                decreases bytes@.len() - i,
            {
                padded.push(bytes[i]);
                i += 1;
            }
            proof {
                lemma_padded(v, len, expected as nat);
                assert(padded@ =~= be_bytes(v, expected as nat));
            }
            padded
        }
    }

    /// The bytes over the declared width, least significant first. What is above is cut off.
    fn to_le_bytes(self) -> (r: Vec<u8>)
        requires
            self@.n_limbs * 8 <= usize::MAX,
        ensures
            r@ == self@.to_le_bytes(),
    {
        let expected = self.n_limbs * LIMB_BYTES;
        let mut bytes = self.inner.to_bytes_le();
        let ghost v = self@.value;
        let ghost len = crate::model::larger(1, byte_len(v));
        proof {
            lemma_zero_byte();
        }
        if bytes.len() > expected {
            bytes.truncate(expected);
            proof {
                assert(bytes@ =~= le_bytes(v, expected as nat));
            }
        } else {
            while bytes.len() < expected
                invariant
                    len <= bytes@.len() <= expected,
                    forall|i: int|
                        0 <= i < bytes@.len() ==> bytes@[i] == if i < len {
                            le_bytes(v, len)[i]
                        } else {
                            0
                        },
                decreases expected - bytes@.len(),
            {
                bytes.push(0);
            }
            proof {
                lemma_padded(v, len, expected as nat);
                assert(bytes@ =~= le_bytes(v, expected as nat));
            }
        }
        bytes
    }
}

/// How many limbs hold that many bytes, and never fewer than one.
fn limbs_of_bytes(len: usize) -> (r: usize)
    ensures
        r == limbs_for_bytes(len as nat),
{
    let whole = len / LIMB_BYTES;
    larger(
        1,
        if len % LIMB_BYTES == 0 {
            whole
        } else {
            whole + 1
        },
    )
}

impl FromByteSlice for FixedWidthBigUint {
    /// The number that the bytes stand for, most significant first, at the width that holds as
    /// many bytes.
    fn from_be_slice(bytes: &[u8]) -> (r: Result<Self, ByteSliceError>)
        ensures
            r is Ok,
            r->Ok_0@ == FixedWidth::new(value(bytes@.reverse()), limbs_for_bytes(bytes@.len())),
    {
        let n_limbs = limbs_of_bytes(bytes.len());
        Ok(FixedWidthBigUint { inner: BigUint::from_bytes_be(bytes), n_limbs })
    }

    /// The number that the bytes stand for, least significant first, at the width that holds as
    /// many bytes.
    fn from_le_slice(bytes: &[u8]) -> (r: Result<Self, ByteSliceError>)
        ensures
            r is Ok,
            r->Ok_0@ == FixedWidth::new(value(bytes@), limbs_for_bytes(bytes@.len())),
    {
        let n_limbs = limbs_of_bytes(bytes.len());
        Ok(FixedWidthBigUint { inner: BigUint::from_bytes_le(bytes), n_limbs })
    }
}

} // verus!
