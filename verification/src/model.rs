//! What a fixed-width number is: a natural number and a declared width in limbs.
use vstd::prelude::*;
use vstd::arithmetic::power2::pow2;
use crate::bitwise::BitOp;
use crate::bytes::{be_bytes, byte_len, le_bytes};
use crate::positional::weight;
use crate::rows::{row_sum, shifted_row_len, shifted_row_sum, with_low_limbs};

verus! {

/// A natural number with a declared width. The width does not bound the number.
pub struct FixedWidth {
    pub value: nat,
    pub n_limbs: nat,
}

/// `2^(64 n)`: the first number that does not fit `n` limbs.
pub open spec fn width_modulus(n: nat) -> nat {
    pow2(64 * n)
}

/// The larger of two counts.
pub open spec fn larger(a: nat, b: nat) -> nat {
    if a >= b {
        a
    } else {
        b
    }
}

/// How many limbs hold `len` bytes, and never fewer than one.
pub open spec fn limbs_for_bytes(len: nat) -> nat {
    larger(1, (len + 7) / 8)
}

/// How many limbs hold `bits` bits.
pub open spec fn limbs_for_bits(bits: nat) -> nat {
    (bits + 63) / 64
}

impl FixedWidth {
    pub open spec fn new(value: nat, n_limbs: nat) -> Self {
        FixedWidth { value, n_limbs }
    }

    /// The first number that does not fit the declared width.
    pub open spec fn modulus(self) -> nat {
        width_modulus(self.n_limbs)
    }

    /// Whether the number fits the declared width.
    pub open spec fn fits(self) -> bool {
        self.value < self.modulus()
    }

    /// The width of a result: that of the wider operand.
    pub open spec fn wider(self, rhs: Self) -> nat {
        larger(self.n_limbs, rhs.n_limbs)
    }

    /// The word at position `i`, which is zero past the last one.
    pub open spec fn word(self, i: nat) -> nat {
        (self.value / weight::<u64>(i)) % 0x1_0000_0000_0000_0000
    }

    pub open spec fn plus(self, rhs: Self) -> Self {
        FixedWidth::new(self.value + rhs.value, self.wider(rhs))
    }

    /// The difference, of use where `rhs` is the smaller number.
    pub open spec fn minus(self, rhs: Self) -> Self {
        FixedWidth::new((self.value - rhs.value) as nat, self.wider(rhs))
    }

    pub open spec fn times(self, rhs: Self) -> Self {
        FixedWidth::new(self.value * rhs.value, self.wider(rhs))
    }

    /// The quotient, of use where `rhs` is not zero.
    pub open spec fn quotient(self, rhs: Self) -> Self {
        FixedWidth::new(self.value / rhs.value, self.wider(rhs))
    }

    /// The remainder, of use where `rhs` is not zero.
    pub open spec fn remainder(self, rhs: Self) -> Self {
        FixedWidth::new(self.value % rhs.value, self.wider(rhs))
    }

    pub open spec fn bitwise(self, op: BitOp, rhs: Self) -> Self {
        FixedWidth::new(op.on_nats(self.value, rhs.value), self.wider(rhs))
    }

    pub open spec fn shifted_up(self, bits: nat) -> Self {
        FixedWidth::new(self.value * pow2(bits), self.n_limbs)
    }

    pub open spec fn shifted_down(self, bits: nat) -> Self {
        FixedWidth::new(self.value / pow2(bits), self.n_limbs)
    }

    /// The sum, reduced to the wider width.
    pub open spec fn wrapping_plus(self, rhs: Self) -> Self {
        let n = self.wider(rhs);
        FixedWidth::new((self.value + rhs.value) % width_modulus(n), n)
    }

    /// The difference less an incoming borrow, which may be negative.
    pub open spec fn difference(self, rhs: Self, borrow: bool) -> int {
        self.value - rhs.value - if borrow {
            1int
        } else {
            0
        }
    }

    /// The difference less an incoming borrow, with one modulus of the wider width added where it
    /// is negative. It is not reduced where it is not.
    pub open spec fn borrowing_minus(self, rhs: Self, borrow: bool) -> Self {
        let n = self.wider(rhs);
        let d = self.difference(rhs, borrow);
        FixedWidth::new(
            if d < 0 {
                (d + width_modulus(n)) as nat
            } else {
                d as nat
            },
            n,
        )
    }

    /// One modulus of the wider width is enough to lift a negative difference to a natural number,
    /// and the width in bits fits a machine word.
    pub open spec fn can_borrow(self, rhs: Self, borrow: bool) -> bool {
        let n = self.wider(rhs);
        self.difference(rhs, borrow) < 0 ==> {
            &&& n * 64 <= usize::MAX
            &&& 0 <= self.difference(rhs, borrow) + width_modulus(n)
        }
    }

    /// The part of `total` below the modulus of `n` limbs, at that width.
    pub open spec fn low_part(total: nat, n: nat) -> Self {
        FixedWidth::new(total % width_modulus(n), n)
    }

    /// The part of `total` from the modulus of `n` limbs up, at that width.
    pub open spec fn high_part(total: nat, n: nat) -> Self {
        FixedWidth::new(total / width_modulus(n), n)
    }

    /// The bytes over the declared width, least significant first. What is above is cut off.
    pub open spec fn to_le_bytes(self) -> Seq<u8> {
        le_bytes(self.value, 8 * self.n_limbs)
    }

    /// How many bytes the most-significant-first form takes: the declared width, and more where
    /// the number needs more.
    pub open spec fn be_len(self) -> nat {
        larger(8 * self.n_limbs, larger(1, byte_len(self.value)))
    }

    /// The bytes over the declared width, most significant first. Nothing is cut off.
    pub open spec fn to_be_bytes(self) -> Seq<u8> {
        be_bytes(self.value, self.be_len())
    }

    /// What a row over the limbs of `m` adds up to on this accumulator.
    pub open spec fn row_sum(self, scalar: u64, m: Self, carry_in: u64) -> nat {
        row_sum(scalar as nat, m.value, self.value, m.n_limbs, carry_in as nat)
    }

    /// The accumulator after a row.
    pub open spec fn after_row(self, scalar: u64, m: Self, carry_in: u64) -> Self {
        let low = self.row_sum(scalar, m, carry_in) % m.modulus();
        FixedWidth::new(with_low_limbs(self.value, m.n_limbs, low), self.n_limbs)
    }

    /// The carry out of a row.
    pub open spec fn row_carry(self, scalar: u64, m: Self, carry_in: u64) -> nat {
        self.row_sum(scalar, m, carry_in) / m.modulus()
    }

    /// What a shifted row over the limbs of `m` adds up to on this accumulator.
    pub open spec fn shifted_row_sum(self, scalar: u64, m: Self, acc_hi: u64) -> nat {
        shifted_row_sum(scalar as nat, m.value, self.value, m.n_limbs, acc_hi as nat)
    }

    /// The accumulator after a shifted row. Without limbs to write it stays as it is.
    pub open spec fn after_shifted_row(self, scalar: u64, m: Self, acc_hi: u64) -> Self {
        let low = self.shifted_row_sum(scalar, m, acc_hi) % m.modulus();
        FixedWidth::new(
            if m.n_limbs == 0 {
                self.value
            } else {
                with_low_limbs(self.value, m.n_limbs, low)
            },
            self.n_limbs,
        )
    }

    /// The carry out of a shifted row.
    pub open spec fn shifted_row_carry(self, scalar: u64, m: Self, acc_hi: u64) -> nat {
        self.shifted_row_sum(scalar, m, acc_hi) / width_modulus(shifted_row_len(m.n_limbs))
    }
}

} // verus!
