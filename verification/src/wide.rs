//! Unsigned integers of unbounded width.
//!
//! A [`Wide`] keeps its base 2^32 digits, least significant first, as plain
//! values. The arithmetic itself is done by `num_bigint`; each operation here
//! is a thin call into it whose contract is stated over the number that the
//! digits denote.

use num_bigint::{BigInt, Sign, ToBigInt};
use num_traits::ToPrimitive;
use vstd::prelude::*;

verus! {

/// The number that a little-endian sequence of base 2^32 digits denotes.
pub open spec fn digits_value(digits: Seq<u32>) -> nat
    decreases digits.len(),
{
    if digits.len() == 0 {
        0
    } else {
        digits[0] as nat + 0x1_0000_0000 * digits_value(digits.drop_first())
    }
}

/// The character of a decimal digit.
pub open spec fn digit_char(d: nat) -> char {
    if d == 0 {
        '0'
    } else if d == 1 {
        '1'
    } else if d == 2 {
        '2'
    } else if d == 3 {
        '3'
    } else if d == 4 {
        '4'
    } else if d == 5 {
        '5'
    } else if d == 6 {
        '6'
    } else if d == 7 {
        '7'
    } else if d == 8 {
        '8'
    } else {
        '9'
    }
}

/// The base-10 text of a number: its digits, most significant first, with no
/// sign and no leading zero; `"0"` for zero.
pub open spec fn decimal_text(n: nat) -> Seq<char>
    decreases n,
{
    if n < 10 {
        seq![digit_char(n)]
    } else {
        decimal_text(n / 10).push(digit_char(n % 10))
    }
}

/// An unsigned integer of unbounded width.
#[derive(Debug, Clone)]
pub struct Wide {
    pub digits: Vec<u32>,
}

impl View for Wide {
    type V = nat;

    open spec fn view(&self) -> nat {
        digits_value(self.digits@)
    }
}

impl Wide {
    /// The integer denoted by `digits`, least significant digit first.
    pub fn from_digits(digits: Vec<u32>) -> (w: Wide)
        ensures
            w@ == digits_value(digits@),
            w.digits@ == digits@,
    {
        Wide { digits }
    }

    /// Calls `BigInt::from(u128)`. Claims that the digits handed back denote `n`.
    #[verifier::external_body]
    pub(crate) fn from_u128(n: u128) -> (w: Wide)
        ensures
            w@ == n,
    {
        Wide { digits: BigInt::from(n).to_u32_digits().1 }
    }

    /// Calls `ToBigInt::to_bigint` on a `u128`, which is `Some(BigInt::from(n))`
    /// for every `n`. Claims that the result is present and denotes `n`.
    #[verifier::external_body]
    pub(crate) fn checked_from_u128(n: u128) -> (w: Option<Wide>)
        ensures
            w is Some,
            w.unwrap()@ == n,
    {
        match n.to_bigint() {
            Some(b) => Some(Wide { digits: b.to_u32_digits().1 }),
            None => None,
        }
    }

    /// Calls `ToPrimitive::to_u128` on the `BigInt` with these digits. Claims
    /// that the result is the value where it fits in 128 bits and `None`
    /// exactly where it does not.
    #[verifier::external_body]
    pub(crate) fn to_u128(&self) -> (r: Option<u128>)
        ensures
            r is Some ==> r.unwrap() == self@,
            r is None <==> self@ > u128::MAX,
    {
        BigInt::from_slice(Sign::Plus, &self.digits).to_u128()
    }

    /// Calls `&BigInt * &BigInt`. Claims that the result denotes the product.
    #[verifier::external_body]
    pub(crate) fn times(&self, other: &Wide) -> (r: Wide)
        ensures
            r@ == self@ * other@,
    {
        let product = &BigInt::from_slice(Sign::Plus, &self.digits)
            * &BigInt::from_slice(Sign::Plus, &other.digits);
        Wide { digits: product.to_u32_digits().1 }
    }

    /// Calls `&BigInt + &BigInt`. Claims that the result denotes the sum.
    #[verifier::external_body]
    pub(crate) fn plus(&self, other: &Wide) -> (r: Wide)
        ensures
            r@ == self@ + other@,
    {
        let sum = &BigInt::from_slice(Sign::Plus, &self.digits)
            + &BigInt::from_slice(Sign::Plus, &other.digits);
        Wide { digits: sum.to_u32_digits().1 }
    }

    /// Calls `&BigInt % &BigInt`, which panics on a zero divisor. Claims that
    /// for a non-zero divisor the result denotes the remainder.
    #[verifier::external_body]
    pub(crate) fn remainder(&self, divisor: &Wide) -> (r: Wide)
        requires
            divisor@ != 0,
        ensures
            r@ == self@ % divisor@,
    {
        let rest = &BigInt::from_slice(Sign::Plus, &self.digits)
            % &BigInt::from_slice(Sign::Plus, &divisor.digits);
        Wide { digits: rest.to_u32_digits().1 }
    }

    /// Calls `BigInt <= BigInt`. Claims that it orders by value.
    #[verifier::external_body]
    pub(crate) fn at_most(&self, other: &Wide) -> (r: bool)
        ensures
            r == (self@ <= other@),
    {
        BigInt::from_slice(Sign::Plus, &self.digits) <= BigInt::from_slice(Sign::Plus, &other.digits)
    }

    /// Calls `BigInt::to_str_radix` with radix 10. Claims that the result is
    /// the base-10 text of the value.
    #[verifier::external_body]
    pub(crate) fn to_decimal(&self) -> (text: String)
        ensures
            text@ == decimal_text(self@),
    {
        BigInt::from_slice(Sign::Plus, &self.digits).to_str_radix(10)
    }

    /// Calls `BigInt == BigInt`. Claims that it tells whether the values are equal.
    #[verifier::external_body]
    pub(crate) fn same_value(&self, other: &Wide) -> (r: bool)
        ensures
            r == (self@ == other@),
    {
        BigInt::from_slice(Sign::Plus, &self.digits) == BigInt::from_slice(Sign::Plus, &other.digits)
    }
}

} // verus!
