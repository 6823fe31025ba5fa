//! The primality tester: trial division by 2, by 3 and by the numbers next to
//! the multiples of 6, up to the square root of the candidate.
//!
//! Known limit: the test takes on the order of `sqrt(n)` divisions, which for
//! very wide candidates are arbitrary-precision divisions.

use crate::wide::Wide;
use vstd::arithmetic::div_mod::{lemma_fundamental_div_mod, lemma_mod_multiples_basic};
use vstd::prelude::*;

verus! {

/// `d` is a non-zero divisor of `n`.
pub open spec fn divides(d: nat, n: nat) -> bool {
    d != 0 && n % d == 0
}

/// `n` is prime: at least 2, and divisible by nothing strictly between 1 and itself.
pub open spec fn is_prime_number(n: nat) -> bool {
    n >= 2 && forall|d: nat| 2 <= d < n ==> !#[trigger] divides(d, n)
}

/// `n` has no divisor from 2 up to its square root.
pub open spec fn no_divisor_up_to_root(n: nat) -> bool {
    forall|d: nat| 2 <= d && d * d <= n ==> !#[trigger] divides(d, n)
}

/// `n` has no divisor from 2 up to, and without, `bound`.
pub open spec fn no_divisor_below(n: nat, bound: nat) -> bool {
    forall|d: nat| 2 <= d < bound ==> !#[trigger] divides(d, n)
}

/// A divisor of a divisor is a divisor.
pub proof fn lemma_divides_transitive(k: nat, d: nat, n: nat)
    requires
        divides(k, d),
        divides(d, n),
    ensures
        divides(k, n),
{
    let a = d / k;
    let b = n / d;
    lemma_fundamental_div_mod(d as int, k as int);
    lemma_fundamental_div_mod(n as int, d as int);
    assert(n == (a * b) * k) by (nonlinear_arith)
        requires
            d == k * a,
            n == d * b,
    ;
    lemma_mod_multiples_basic((a * b) as int, k as int);
}

/// The quotient of a positive number by a divisor divides it too.
pub proof fn lemma_cofactor(n: nat, d: nat)
    requires
        n > 0,
        divides(d, n),
    ensures
        (n / d) * d == n,
        divides(n / d, n),
{
    let q = n / d;
    lemma_fundamental_div_mod(n as int, d as int);
    assert(q * d == n) by (nonlinear_arith)
        requires
            n == d * q,
    ;
    assert(q != 0) by (nonlinear_arith)
        requires
            q * d == n,
            n > 0,
    ;
    assert(n == d * q);
    lemma_mod_multiples_basic(d as int, q as int);
}

/// Trial division may stop at the square root: with no divisor below `bound`
/// and `bound * bound` above `n`, the number is prime.
pub proof fn lemma_trial_division_complete(n: nat, bound: nat)
    requires
        n >= 2,
        bound * bound > n,
        no_divisor_below(n, bound),
    ensures
        is_prime_number(n),
{
    assert forall|d: nat| 2 <= d < n implies !#[trigger] divides(d, n) by {
        if divides(d, n) && d >= bound {
            lemma_cofactor(n, d);
            let q = n / d;
            assert(q < bound) by (nonlinear_arith)
                requires
                    q * d == n,
                    n < bound * bound,
                    d >= bound,
            ;
            assert(q >= 2) by (nonlinear_arith)
                requires
                    q * d == n,
                    d < n,
                    n >= 2,
            ;
            assert(divides(q, n));
        }
    }
}

/// One round of the wheel: a number that 2 and 3 do not divide, with no
/// divisor below `i`, where `i` is one short of a multiple of 6 and neither
/// `i` nor `i + 2` divides it, has no divisor below `i + 6`.
pub proof fn lemma_wheel_step(n: nat, i: nat)
    requires
        !divides(2, n),
        !divides(3, n),
        i % 6 == 5,
        no_divisor_below(n, i),
        !divides(i, n),
        !divides(i + 2, n),
    ensures
        no_divisor_below(n, i + 6),
{
    assert forall|d: nat| 2 <= d < i + 6 implies !#[trigger] divides(d, n) by {
        if divides(d, n) && d >= i {
            if d % 2 == 0 {
                assert(divides(2, d));
                lemma_divides_transitive(2, d, n);
            } else {
                assert(d == i + 4);
                assert(divides(3, d));
                lemma_divides_transitive(3, d, n);
            }
        }
    }
}

/// A number that 2 and 3 do not divide has no divisor below 5.
pub proof fn lemma_wheel_start(n: nat)
    requires
        !divides(2, n),
        !divides(3, n),
    ensures
        no_divisor_below(n, 5),
{
    assert forall|d: nat| 2 <= d < 5 implies !#[trigger] divides(d, n) by {
        if divides(d, n) && d == 4 {
            assert(divides(2, 4));
            lemma_divides_transitive(2, 4, n);
        }
    }
}

/// For a positive `i`, `i <= n / i` says that `i * i <= n`.
pub proof fn lemma_square_at_most(n: nat, i: nat)
    requires
        i > 0,
    ensures
        (i <= n / i) <==> (i * i <= n),
{
    let q = n / i;
    let r = n % i;
    lemma_fundamental_div_mod(n as int, i as int);
    assert(n == i * q + r);
    assert(r < i);
    if i <= q {
        assert(i * i <= n) by (nonlinear_arith)
            requires
                n == i * q + r,
                i <= q,
                r >= 0,
                i > 0,
        ;
    } else {
        assert(i * i > n) by (nonlinear_arith)
            requires
                n == i * q + r,
                q < i,
                r < i,
                i > 0,
                q >= 0,
        ;
    }
}

/// Of the numbers below 4, exactly 2 and 3 are prime.
pub proof fn lemma_primes_below_four()
    ensures
        !is_prime_number(0),
        !is_prime_number(1),
        is_prime_number(2),
        is_prime_number(3),
{
    assert forall|d: nat| 2 <= d < 3 implies !#[trigger] divides(d, 3) by {
        assert(d == 2);
    }
}

/// A number from 2 on is prime exactly when nothing from 2 up to its square
/// root divides it.
pub proof fn lemma_prime_iff_no_divisor_up_to_root(n: nat)
    requires
        n >= 2,
    ensures
        is_prime_number(n) <==> no_divisor_up_to_root(n),
{
    if is_prime_number(n) {
        assert forall|d: nat| 2 <= d && d * d <= n implies !#[trigger] divides(d, n) by {
            assert(d < n) by (nonlinear_arith)
                requires
                    2 <= d,
                    d * d <= n,
            ;
        }
    }
    if no_divisor_up_to_root(n) {
        assert forall|d: nat| 2 <= d < n implies !#[trigger] divides(d, n) by {
            if divides(d, n) {
                if d * d > n {
                    lemma_cofactor(n, d);
                    let q = n / d;
                    assert(q >= 2 && q * q <= n) by (nonlinear_arith)
                        requires
                            q * d == n,
                            d < n,
                            d * d > n,
                            d >= 2,
                    ;
                    assert(divides(q, n));
                }
            }
        }
    }
}

/// The fast path: trial division in native 128-bit arithmetic.
pub fn is_prime_native(n: u128) -> (prime: bool)
    ensures
        prime == is_prime_number(n as nat),
{
    if n < 2 {
        return false;
    }
    if n < 4 {
        assert(is_prime_number(n as nat)) by {
            assert forall|d: nat| 2 <= d < n implies !#[trigger] divides(d, n as nat) by {
                assert(d == 2 && n == 3);
            }
        }
        return true;
    }
    if n % 2 == 0 {
        assert(divides(2, n as nat));
        return false;
    }
    if n % 3 == 0 {
        assert(divides(3, n as nat));
        return false;
    }
    proof {
        lemma_wheel_start(n as nat);
    }
    let mut i: u128 = 5;
    while i <= n / i
        invariant
            5 <= i <= n,
            i % 6 == 5,
            !divides(2, n as nat),
            !divides(3, n as nat),
            no_divisor_below(n as nat, i as nat),
        decreases n - i,
    {
        proof {
            lemma_square_at_most(n as nat, i as nat);
            assert(i + 6 < n) by (nonlinear_arith)
                requires
                    i * i <= n,
                    i >= 5,
            ;
        }
        if n % i == 0 || n % (i + 2) == 0 {
            assert(divides(i as nat, n as nat) || divides((i + 2) as nat, n as nat));
            return false;
        }
        proof {
            lemma_wheel_step(n as nat, i as nat);
        }
        i = i + 6;
    }
    proof {
        lemma_square_at_most(n as nat, i as nat);
        lemma_trial_division_complete(n as nat, i as nat);
    }
    true
}

/// The fallback: the same trial division in arbitrary-precision arithmetic,
/// looping while `i * i <= n`. It decides every `n`, narrow or wide.
pub fn is_prime_wide(n: &Wide) -> (prime: bool)
    ensures
        prime == is_prime_number(n@),
{
    let zero = Wide::from_u128(0);
    let one = Wide::from_u128(1);
    let two = Wide::from_u128(2);
    let three = Wide::from_u128(3);
    let six = Wide::from_u128(6);
    if n.at_most(&one) {
        return false;
    }
    if n.same_value(&two) || n.same_value(&three) {
        assert(is_prime_number(n@)) by {
            assert forall|d: nat| 2 <= d < n@ implies !#[trigger] divides(d, n@) by {
                assert(d == 2 && n@ == 3);
            }
        }
        return true;
    }
    if n.remainder(&two).same_value(&zero) {
        assert(divides(2, n@));
        return false;
    }
    if n.remainder(&three).same_value(&zero) {
        assert(divides(3, n@));
        return false;
    }
    proof {
        lemma_wheel_start(n@);
    }
    let mut i = Wide::from_u128(5);
    while i.times(&i).at_most(n)
        invariant
            5 <= i@ <= n@,
            i@ % 6 == 5,
            zero@ == 0,
            two@ == 2,
            six@ == 6,
            !divides(2, n@),
            !divides(3, n@),
            no_divisor_below(n@, i@),
        decreases n@ - i@,
    {
        proof {
            assert(i@ + 6 < n@) by (nonlinear_arith)
                requires
                    i@ * i@ <= n@,
                    i@ >= 5,
            ;
        }
        let next = i.plus(&two);
        if n.remainder(&i).same_value(&zero) || n.remainder(&next).same_value(&zero) {
            assert(divides(i@, n@) || divides(i@ + 2, n@));
            return false;
        }
        proof {
            lemma_wheel_step(n@, i@);
        }
        i = i.plus(&six);
    }
    proof {
        lemma_trial_division_complete(n@, i@);
    }
    true
}

/// The primality tester. A candidate that fits in 128 bits takes the native
/// fast path; any other takes the arbitrary-precision fallback.
pub fn is_prime(big_n: &Wide) -> (prime: bool)
    ensures
        prime == is_prime_number(big_n@),
{
    match big_n.to_u128() {
        Some(n) => is_prime_native(n),
        None => is_prime_wide(big_n),
    }
}

} // verus!
