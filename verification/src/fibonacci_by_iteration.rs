//! Fibonacci numbers, in a loop.

use vstd::prelude::*;
use crate::fibonacci_by_recursion::{fibonacci_number, lemma_fibonacci_increases};

verus! {

/// The `nth_number`-th Fibonacci number, counting from 0.
///
/// The loop keeps the number after the current one at hand, so the number
/// after the result must fit 32 bits too.
pub fn fibonacci(nth_number: usize) -> (result: u32)
    requires
        fibonacci_number((nth_number + 1) as nat) <= u32::MAX,
    ensures
        result == fibonacci_number(nth_number as nat),
{
    let mut a: u32 = 0;
    let mut b: u32 = 1;
    for done in 0..nth_number
        invariant
            a == fibonacci_number(done as nat),
            b == fibonacci_number((done + 1) as nat),
            fibonacci_number((nth_number + 1) as nat) <= u32::MAX,
    {
        proof {
            lemma_fibonacci_increases((done + 2) as nat, (nth_number + 1) as nat);
        }
        let next = a + b;
        a = b;
        b = next;
    }
    a
}

/// The `nth_number`-th Fibonacci number, counting from 1: the first and the
/// second are 1. Asked for the one numbered 0 it answers 1 as well.
///
/// From the second number on the loop keeps the number after the current
/// one at hand, which must then fit 32 bits too.
pub fn fibonacci_from_one(nth_number: usize) -> (result: u32)
    requires
        nth_number >= 2 ==> fibonacci_number((nth_number + 1) as nat) <= u32::MAX,
    ensures
        result == if nth_number == 0 {
            1
        } else {
            fibonacci_number(nth_number as nat)
        },
{
    let mut a: u32 = 1;
    let mut b: u32 = 1;
    assert(fibonacci_number(1) == 1 && fibonacci_number(2) == 1) by {
        reveal_with_fuel(fibonacci_number, 3);
    }
    let mut done: usize = 1;
    while done < nth_number
        invariant
            1 <= done,
            done <= nth_number || done == 1,
            a == fibonacci_number(done as nat),
            b == fibonacci_number((done + 1) as nat),
            nth_number >= 2 ==> fibonacci_number((nth_number + 1) as nat) <= u32::MAX,
        decreases nth_number - done,
    {
        proof {
            lemma_fibonacci_increases((done + 2) as nat, (nth_number + 1) as nat);
        }
        let next = a + b;
        a = b;
        b = next;
        done += 1;
    }
    a
}

} // verus!
