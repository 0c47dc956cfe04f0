//! Signed 256-bit machine integers in two's complement.

use crate::bound::{abs, Bound};
use crate::word::{decimal_digits, word_limit, Word};
use ethers_core::types::{Sign, I256, U256};
use vstd::prelude::*;

verus! {

/// A signed 256-bit integer, held as the limbs of its two's complement.
#[derive(Debug, Clone, Copy, PartialEq, Eq)]
pub struct Int256 {
    pub raw: Word,
}

impl View for Int256 {
    type V = int;

    open spec fn view(&self) -> int {
        if self.raw@ * 2 < word_limit() {
            self.raw@ as int
        } else {
            self.raw@ - word_limit()
        }
    }
}

/// The decimal rendering of a number: a minus sign where it is negative, then the digits.
pub open spec fn signed_decimal(x: int) -> Seq<char> {
    if x < 0 {
        seq!['-'] + decimal_digits(abs(x))
    } else {
        decimal_digits(abs(x))
    }
}

/// Calls `I256::into_sign_and_abs`: whether the number is negative, and its absolute value.
#[verifier::external_body]
fn int_sign_and_abs(v: Int256) -> (r: (bool, Word))
    ensures
        r.0 == (v@ < 0),
        r.1@ == abs(v@),
{
    let (sign, magnitude) = I256::from_raw(U256(v.raw.limbs)).into_sign_and_abs();
    match sign {
        Sign::Positive => (false, Word { limbs: magnitude.0 }),
        Sign::Negative => (true, Word { limbs: magnitude.0 }),
    }
}

/// Formats an `I256` with its `Display` impl: a minus sign where it is negative, then the
/// decimal digits of the absolute value.
#[verifier::external_body]
fn int_to_decimal(v: Int256) -> (s: String)
    ensures
        s@ == signed_decimal(v@),
{
    I256::from_raw(U256(v.raw.limbs)).to_string()
}

impl Int256 {
    /// The integer whose two's complement is `raw`.
    pub fn from_raw(raw: Word) -> (v: Int256)
        ensures
            v.raw == raw,
    {
        Int256 { raw }
    }

    /// The number as a sign and a magnitude.
    pub fn to_bound(&self) -> (b: Bound)
        ensures
            b@ == self@,
            b.canonical(),
    {
        let (negative, magnitude) = int_sign_and_abs(*self);
        Bound::signed(negative, magnitude)
    }

    /// The decimal digits of the number, after a minus sign where it is negative.
    pub fn to_decimal(&self) -> (s: String)
        ensures
            s@ == signed_decimal(self@),
    {
        int_to_decimal(*self)
    }
}

} // verus!
