//! Currency amounts as exact decimal fixed-point numbers.
//!
//! An amount counts millionths of the currency unit, so sums are exact and
//! rounding happens once, when a total is reported in hundredths.

use crate::decimal::{lemma_micros_read_back, micros_of_text, read_micros};
use crate::text::{chars_of, micros_text, render_micros};
use vstd::prelude::*;

verus! {

/// Millionths in one currency unit.
pub const MICROS_PER_UNIT: u64 = 1_000_000;

/// Millionths in one hundredth of the currency unit.
pub const MICROS_PER_CENT: u64 = 10_000;

/// A non-negative currency amount, held as a whole number of millionths.
#[derive(Clone, Copy, PartialEq, Eq, Structural, Debug)]
pub struct Amount {
    micros: u64,
}

impl View for Amount {
    type V = nat;

    closed spec fn view(&self) -> nat {
        self.micros as nat
    }
}

/// The hundredths nearest to `micros` millionths; a tie goes up.
pub open spec fn cents_nearest(micros: nat) -> nat {
    (micros + 5_000) / 10_000
}

impl Amount {
    /// The amount of `micros` millionths.
    pub fn from_micros(micros: u64) -> (amount: Self)
        ensures
            amount@ == micros,
    {
        Amount { micros }
    }

    /// The amount of nothing.
    pub fn zero() -> (amount: Self)
        ensures
            amount@ == 0,
    {
        Amount { micros: 0 }
    }

    /// This amount in millionths.
    pub fn micros(&self) -> (micros: u64)
        ensures
            micros == self@,
    {
        self.micros
    }

    /// The amount that a decimal number denotes: see [`micros_of_text`].
    /// `None` for a text that is no such number, and for a number too
    /// large to be counted in millionths in 64 bits.
    pub open spec fn of_text(text: Seq<char>) -> Option<nat> {
        match micros_of_text(text) {
            Some(micros) => if micros <= u64::MAX {
                Some(micros)
            } else {
                None
            },
            None => None,
        }
    }

    /// Reads an amount written as a decimal number.
    pub fn parse(text: &str) -> (amount: Option<Self>)
        ensures
            match amount {
                Some(a) => Self::of_text(text@) == Some(a@),
                None => Self::of_text(text@) is None,
            },
    {
        let chars = chars_of(text);
        assert(chars@.subrange(0, chars.len() as int) =~= text@);
        match read_micros(&chars, 0, chars.len()) {
            Some(micros) => {
                if micros <= u64::MAX as u128 {
                    Some(Amount { micros: micros as u64 })
                } else {
                    None
                }
            },
            None => None,
        }
    }

    /// Writes the amount as a decimal number with six places.
    pub fn text(&self) -> (text: String)
        ensures
            text@ == micros_text(self@),
    {
        render_micros(self.micros as u128)
    }

    /// What is written is read back: the text of an amount denotes the amount.
    pub proof fn lemma_text_reads_back(self)
        ensures
            Self::of_text(micros_text(self@)) == Some(self@),
    {
        lemma_micros_read_back(self@);
    }

    /// An amount fits in 64 bits.
    pub proof fn lemma_bounded(self)
        ensures
            self@ <= u64::MAX,
    {
    }
}

/// Rounds a total of millionths to hundredths, half up.
pub fn round_to_cents(micros: u128) -> (cents: u128)
    ensures
        cents == cents_nearest(micros as nat),
{
    let whole: u128 = micros / 10_000;
    let rest: u128 = micros % 10_000;
    if rest >= 5_000 {
        whole + 1
    } else {
        whole
    }
}

/// A rounded total lies within half a hundredth of the exact one, and an
/// exact half is rounded up.
pub proof fn lemma_cents_nearest_is_nearest(micros: nat)
    ensures
        cents_nearest(micros) * 10_000 - 5_000 <= micros < cents_nearest(micros) * 10_000 + 5_000,
{
}

/// Rounding never reorders totals.
pub proof fn lemma_cents_nearest_monotonic(a: nat, b: nat)
    requires
        a <= b,
    ensures
        cents_nearest(a) <= cents_nearest(b),
{
}

} // verus!
