//! A power by repeated multiplication.

use vstd::prelude::*;
use vstd::arithmetic::power::{lemma_pow0, lemma_pow1, lemma_pow_adds, pow};
use crate::power::lemma_pow_within;

verus! {

/// Raises `a` to the power `n` by multiplying `n` times.
pub fn exponent_by_iteration(a: i64, n: usize) -> (result: i64)
    requires
        i64::MIN <= pow(a as int, n as nat) <= i64::MAX,
    ensures
        result == pow(a as int, n as nat),
{
    let mut result: i64 = 1;
    proof {
        lemma_pow0(a as int);
    }
    for done in 0..n
        invariant
            result == pow(a as int, done as nat),
            i64::MIN <= pow(a as int, n as nat) <= i64::MAX,
    {
        proof {
            lemma_pow_within(a as int, (done + 1) as nat, n as nat, i64::MAX as int);
            lemma_pow_adds(a as int, done as nat, 1);
            lemma_pow1(a as int);
        }
        result = result * a;
    }
    result
}

} // verus!
