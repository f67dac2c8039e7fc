//! The factorial, recursively.

use vstd::prelude::*;

verus! {

/// The product of the numbers from 1 to `n`; 1 for `n == 0`.
pub open spec fn factorial_of(n: nat) -> nat
    decreases n,
{
    if n == 0 {
        1
    } else {
        n * factorial_of((n - 1) as nat)
    }
}

/// A factorial is at least 1, and no smaller than the factorial of a
/// smaller number.
pub proof fn lemma_factorial_increases(i: nat, j: nat)
    requires
        i <= j,
    ensures
        1 <= factorial_of(i) <= factorial_of(j),
    decreases j,
{
    if j == 0 {
    } else if i == j {
        lemma_factorial_increases(0, (j - 1) as nat);
        let below = factorial_of((j - 1) as nat);
        assert(j * below >= below) by (nonlinear_arith)
            requires
                j >= 1,
                below >= 1,
        ;
    } else {
        lemma_factorial_increases(i, (j - 1) as nat);
        let below = factorial_of((j - 1) as nat);
        assert(j * below >= below) by (nonlinear_arith)
            requires
                j >= 1,
                below >= 1,
        ;
    }
}

/// The factorial of `number`, which must fit 32 bits. The factorial of 0 is
/// 1.
pub fn factorial(number: u32) -> (product: u32)
    requires
        factorial_of(number as nat) <= u32::MAX,
    ensures
        product == factorial_of(number as nat),
    decreases number,
{
    if number == 0 {
        1
    } else {
        proof {
            lemma_factorial_increases((number - 1) as nat, number as nat);
        }
        number * factorial(number - 1)
    }
}

} // verus!
