//! The power calculator: the square, the cube and the fourth power of a
//! number, exact at any width.

use crate::wide::Wide;
use vstd::prelude::*;

verus! {

/// The powers of a number that was brought into arbitrary precision, or
/// `None` where it could not be brought there.
///
/// The square is `n * n`, the cube is the square times `n`, and the fourth
/// power is the square times the square.
pub fn powers_of(big_n: Option<Wide>) -> (powers: Option<(Wide, Wide, Wide)>)
    ensures
        big_n is None <==> powers is None,
        big_n is Some ==> {
            let n = big_n.unwrap()@;
            let p = powers.unwrap();
            &&& p.0@ == n * n
            &&& p.1@ == n * n * n
            &&& p.2@ == n * n * n * n
        },
{
    let big_n = match big_n {
        Some(b) => b,
        None => {
            return None;
        },
    };
    let squared = big_n.times(&big_n);
    let cubed = squared.times(&big_n);
    let to_fourth_power = squared.times(&squared);
    proof {
        let n = big_n@;
        assert((n * n) * (n * n) == n * n * n * n) by (nonlinear_arith);
    }
    Some((squared, cubed, to_fourth_power))
}

/// The square, the cube and the fourth power of `n`.
///
/// Every `u128` can be brought into arbitrary precision, so the result is
/// always present.
pub fn calculate_powers(n: u128) -> (powers: Option<(Wide, Wide, Wide)>)
    ensures
        powers is Some,
        powers.unwrap().0@ == n * n,
        powers.unwrap().1@ == n * n * n,
        powers.unwrap().2@ == n * n * n * n,
{
    powers_of(Wide::checked_from_u128(n))
}

} // verus!
