//! Numbers as text.
use vstd::prelude::*;
use core::fmt::{Debug, Error as FormatError, Formatter};
use num_traits::Zero;
use vstd::string::StringExecFns;
use crate::biguint::BigUint;
use crate::fixed_width::FixedWidthBigUint;
use crate::model::FixedWidth;

verus! {

/// The decimal digit `d`.
pub open spec fn digit_char(d: nat) -> char {
    (48 + d) as char
}

/// The decimal digits of `v`, most significant first.
pub open spec fn decimal(v: nat) -> Seq<char>
    decreases v,
{
    if v < 10 {
        seq![digit_char(v)]
    } else {
        decimal(v / 10).push(digit_char(v % 10))
    }
}

/// What a fixed-width number is shown as: the number and its width, both in decimal.
pub open spec fn shown(x: FixedWidth) -> Seq<char> {
    "FixedWidthBigUint("@ + decimal(x.value) + ", n="@ + decimal(x.n_limbs) + ")"@
}

/// A decimal digit as a string.
fn digit_text(d: u64) -> (r: &'static str)
    requires
        d < 10,
    ensures
        r@ == seq![digit_char(d as nat)],
{
    proof {
        reveal_strlit("0");
        reveal_strlit("1");
        reveal_strlit("2");
        reveal_strlit("3");
        reveal_strlit("4");
        reveal_strlit("5");
        reveal_strlit("6");
        reveal_strlit("7");
        reveal_strlit("8");
        reveal_strlit("9");
    }
    let r = match d {
        0 => "0",
        1 => "1",
        2 => "2",
        3 => "3",
        4 => "4",
        5 => "5",
        6 => "6",
        7 => "7",
        8 => "8",
        _ => "9",
    };
    proof {
        assert(r@ =~= seq![digit_char(d as nat)]);
    }
    r
}

/// The characters of decimal digits that are held least significant first, from position `i` up.
spec fn digits_from(digits: Seq<u64>, i: int) -> Seq<char> {
    Seq::new(
        (digits.len() - i) as nat,
        |k: int| digit_char(digits[digits.len() - 1 - k] as nat),
    )
}

/// The decimal digits of a number, most significant first.
pub fn to_decimal(v: &BigUint) -> (r: String)
    ensures
        r@ == decimal(v@),
{
    let mut digits: Vec<u64> = Vec::new();
    let (mut rest, low) = v.div_rem_limb(10);
    digits.push(low);
    proof {
        assert(digits_from(digits@, 0) =~= seq![digit_char(v@ % 10)]);
    }
    while !rest.is_zero()
        invariant
            forall|i: int| 0 <= i < digits@.len() ==> digits@[i] < 10,
            decimal(v@) == if rest@ == 0 {
                digits_from(digits@, 0)
            } else {
                decimal(rest@) + digits_from(digits@, 0)
            },
        decreases rest@,
    {
        let (next, digit) = rest.div_rem_limb(10);
        let ghost before = digits@;
        digits.push(digit);
        proof {
            assert(digits_from(digits@, 0) =~= seq![digit_char(digit as nat)] + digits_from(
                before,
                0,
            ));
            if next@ > 0 {
                assert(decimal(rest@) + digits_from(before, 0) =~= decimal(next@) + digits_from(
                    digits@,
                    0,
                ));
            }
        }
        rest = next;
    }
    let mut text = String::new();
    let mut i: usize = digits.len();
    proof {
        assert(text@ =~= digits_from(digits@, i as int));
    }
    while i > 0
        invariant
            i <= digits@.len(),
            forall|k: int| 0 <= k < digits@.len() ==> digits@[k] < 10,
            text@ == digits_from(digits@, i as int),
        decreases i,
    {
        text.append(digit_text(digits[i - 1]));
        i -= 1;
        proof {
            assert(text@ =~= digits_from(digits@, i as int));
        }
    }
    text
}

impl FixedWidthBigUint {
    /// The number and its width, both in decimal.
    pub fn to_text(&self) -> (r: String)
        ensures
            r@ == shown(self@),
    {
        let text = to_decimal(&self.inner);
        let width = to_decimal(&BigUint::from(self.n_limbs));
        let mut r = String::new();
        r.append("FixedWidthBigUint(");
        r.append(text.as_str());
        r.append(", n=");
        r.append(width.as_str());
        r.append(")");
        proof {
            assert(r@ =~= shown(self@));
        }
        r
    }
}

/// Declares `core::fmt::Formatter`, the sink that text is written to.
#[verifier::external_type_specification]
#[verifier::external_body]
pub struct ExFormatter<'a>(Formatter<'a>);

/// Declares `core::fmt::Error`, which tells that a sink did not take its text. It is passed on as
/// it is; nothing is claimed of it.
#[verifier::external_type_specification]
#[verifier::external_body]
pub struct ExFormatError(FormatError);

/// The text that a formatter's buffer has taken so far.
pub uninterp spec fn written(f: Formatter<'_>) -> Seq<char>;

/// Calls `core::fmt::Formatter::write_str`, which writes a string to the buffer of the formatter
/// and succeeds only if the whole string was written. On success the buffer has taken the text after
/// what it had taken before. Which buffers succeed is left open, and so is how much of the text one
/// that fails has taken.
#[verifier::external_body]
fn write_text(f: &mut Formatter<'_>, text: &str) -> (r: Result<(), FormatError>)
    ensures
        r is Ok ==> written(*final(f)) == written(*old(f)) + text@,
{
    f.write_str(text)
}

impl Debug for BigUint {
    /// Writes the number in decimal, and fails only where the formatter does.
    fn fmt(&self, f: &mut Formatter<'_>) -> (r: Result<(), FormatError>)
        ensures
            r is Ok ==> written(*final(f)) == written(*old(f)) + decimal(self@),
    {
        let text = to_decimal(self);
        write_text(f, text.as_str())
    }
}

impl Debug for FixedWidthBigUint {
    /// Writes the number and its width, both in decimal, and fails only where the formatter does.
    fn fmt(&self, f: &mut Formatter<'_>) -> (r: Result<(), FormatError>)
        ensures
            r is Ok ==> written(*final(f)) == written(*old(f)) + shown(self@),
    {
        let text = self.to_text();
        write_text(f, text.as_str())
    }
}

} // verus!
