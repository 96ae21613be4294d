//! Prices as exact non-negative decimals, and the text they are shown as.

use crate::decimal::{numeral, uint_text};
use vstd::prelude::*;

verus! {

/// A non-negative decimal amount: `mantissa` times ten to the power `exponent`.
///
/// Two prices with different fields are different values, also where they
/// stand for the same amount; `to_text` shows both the same way.
#[derive(Clone, Copy, Debug, PartialEq, Eq, Structural)]
pub struct Price {
    pub mantissa: u64,
    pub exponent: i16,
}

/// A run of `count` zeros.
pub open spec fn zeros(count: nat) -> Seq<char> {
    Seq::new(count, |i: int| '0')
}

/// The plain decimal text of `mantissa` times ten to the power `exponent`:
/// the digits of the whole part, then, where the amount has a fraction, a
/// point and the digits of the fraction without trailing zeros. There is no
/// sign and no exponent, and an amount below one starts with `0.`.
pub open spec fn decimal_text(mantissa: nat, exponent: int) -> Seq<char>
    decreases mantissa,
{
    if mantissa == 0 {
        seq!['0']
    } else if exponent >= 0 {
        numeral(mantissa) + zeros(exponent as nat)
    } else if mantissa % 10 == 0 {
        decimal_text(mantissa / 10, exponent + 1)
    } else {
        let digits = numeral(mantissa);
        let whole = digits.len() + exponent;
        if whole > 0 {
            digits.take(whole) + seq!['.'] + digits.skip(whole)
        } else {
            seq!['0', '.'] + zeros((-whole) as nat) + digits
        }
    }
}

/// Appends `count` zeros to `text`.
fn append_zeros(text: &mut String, count: usize)
    ensures
        final(text)@ == old(text)@ + zeros(count as nat),
{
    let mut done: usize = 0;
    assert(text@ =~= old(text)@ + zeros(0));
    while done < count
        invariant
            done <= count,
            text@ == old(text)@ + zeros(done as nat),
        decreases count - done,
    {
        proof {
            reveal_strlit("0");
        }
        text.append("0");
        done += 1;
        assert(text@ =~= old(text)@ + zeros(done as nat));
    }
}

impl Price {
    /// The price `mantissa` times ten to the power `exponent`.
    pub fn new(mantissa: u64, exponent: i16) -> (r: Price)
        ensures
            r == (Price { mantissa, exponent }),
    {
        Price { mantissa, exponent }
    }

    /// The text that this price is shown as.
    pub open spec fn text(self) -> Seq<char> {
        decimal_text(self.mantissa as nat, self.exponent as int)
    }

    /// Writes the price in plain decimal notation.
    pub fn to_text(&self) -> (r: String)
        ensures
            r@ == self.text(),
    {
        proof {
            reveal_strlit("0");
            reveal_strlit(".");
            reveal_strlit("0.");
        }
        let mut mantissa: u64 = self.mantissa;
        let mut exponent: i32 = self.exponent as i32;
        if mantissa == 0 {
            let zero = "0".to_owned();
            assert(zero@ =~= seq!['0']);
            return zero;
        }
        while exponent < 0 && mantissa % 10 == 0
            invariant
                mantissa > 0,
                -32768 <= exponent <= 32767,
                decimal_text(mantissa as nat, exponent as int) == self.text(),
            decreases mantissa,
        {
            mantissa = mantissa / 10;
            exponent = exponent + 1;
        }
        let digits = uint_text(mantissa);
        if exponent >= 0 {
            let mut text = digits;
            append_zeros(&mut text, exponent as usize);
            text
        } else {
            let places: usize = (-exponent) as usize;
            let len = digits.as_str().unicode_len();
            if places < len {
                let whole = digits.as_str().substring_char(0, len - places);
                let fraction = digits.as_str().substring_char(len - places, len);
                let mut text = whole.to_owned();
                text.append(".");
                text.append(fraction);
                assert(text@ =~= digits@.take(len - places) + seq!['.'] + digits@.skip(
                    len - places,
                ));
                text
            } else {
                let mut text = "0.".to_owned();
                append_zeros(&mut text, places - len);
                text.append(digits.as_str());
                assert(text@ =~= seq!['0', '.'] + zeros((places - len) as nat) + digits@);
                text
            }
        }
    }
}

} // verus!
