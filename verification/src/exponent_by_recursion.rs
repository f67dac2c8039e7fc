//! A power by halving the exponent, recursively.

use vstd::prelude::*;
use vstd::arithmetic::power::{lemma_pow1, lemma_pow_adds, pow};
use crate::power::lemma_pow_within;

verus! {

/// Raises `a` to the power `n` by squaring the power for half the exponent.
///
/// The recursion has no case for an exponent of 0 and would not end there,
/// so `n` is at least 1.
pub fn exponent_by_recursion(a: i64, n: usize) -> (result: i64)
    requires
        n >= 1,
        i64::MIN <= pow(a as int, n as nat) <= i64::MAX,
    ensures
        result == pow(a as int, n as nat),
    decreases n,
{
    if n == 1 {
        proof {
            lemma_pow1(a as int);
        }
        a
    } else {
        let half = n / 2;
        proof {
            lemma_pow_within(a as int, half as nat, n as nat, i64::MAX as int);
            lemma_pow_within(a as int, (half + half) as nat, n as nat, i64::MAX as int);
            lemma_pow_adds(a as int, half as nat, half as nat);
            lemma_pow_adds(a as int, (half + half) as nat, 1);
            lemma_pow1(a as int);
        }
        let result = exponent_by_recursion(a, half);
        if n % 2 == 0 {
            result * result
        } else {
            result * result * a
        }
    }
}

} // verus!
