//! The factorial, in a loop.

use vstd::prelude::*;
use crate::factorial_by_recursion::{factorial_of, lemma_factorial_increases};

verus! {

/// The factorial of `number`, which must fit 32 bits. The factorial of 0 is
/// 1.
pub fn factorial(number: u32) -> (product: u32)
    requires
        factorial_of(number as nat) <= u32::MAX,
    ensures
        product == factorial_of(number as nat),
{
    let mut product: u32 = 1;
    let mut done: u32 = 0;
    while done < number
        invariant
            done <= number,
            product == factorial_of(done as nat),
            factorial_of(number as nat) <= u32::MAX,
        decreases number - done,
    {
        proof {
            lemma_factorial_increases((done + 1) as nat, number as nat);
            assert(product * (done + 1) == (done + 1) * product) by (nonlinear_arith);
        }
        done += 1;
        product = product * done;
    }
    product
}

} // verus!
