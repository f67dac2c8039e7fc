//! The first Fibonacci numbers as a list, each computed from scratch by
//! walking up pairs of neighbours.

use vstd::prelude::*;
use crate::fibonacci_by_recursion::{fibonacci_number, lemma_fibonacci_increases};

verus! {

/// From a pair of neighbouring Fibonacci numbers to the pair one place on.
fn next(pair: (u32, u32)) -> (moved: (u32, u32))
    requires
        pair.0 + pair.1 <= u32::MAX,
    ensures
        moved.0 == pair.1,
        moved.1 == pair.0 + pair.1,
{
    (pair.1, pair.0 + pair.1)
}

/// The `n`-th Fibonacci number and the one after it.
fn fib_pair(n: usize) -> (pair: (u32, u32))
    requires
        fibonacci_number((n + 1) as nat) <= u32::MAX,
    ensures
        pair.0 == fibonacci_number(n as nat),
        pair.1 == fibonacci_number((n + 1) as nat),
    decreases n,
{
    if n == 0 {
        (0, 1)
    } else {
        proof {
            lemma_fibonacci_increases(n as nat, (n + 1) as nat);
        }
        next(fib_pair(n - 1))
    }
}

/// The `n`-th Fibonacci number, counting from 0. The number after it is
/// computed along with it and must fit 32 bits.
pub fn fib(n: usize) -> (result: u32)
    requires
        fibonacci_number((n + 1) as nat) <= u32::MAX,
    ensures
        result == fibonacci_number(n as nat),
{
    fib_pair(n).0
}

/// The first `n` Fibonacci numbers, from the one numbered 0.
///
/// Each is computed together with its successor, so the number that would
/// come next in the list must still fit 32 bits.
pub fn fibs(n: usize) -> (list: Vec<u32>)
    requires
        fibonacci_number(n as nat) <= u32::MAX,
    ensures
        list@.len() == n,
        forall|i: int| 0 <= i < n ==> list@[i] == fibonacci_number(i as nat),
{
    let mut list: Vec<u32> = Vec::new();
    for index in 0..n
        invariant
            list@.len() == index,
            forall|i: int| 0 <= i < index ==> list@[i] == fibonacci_number(i as nat),
            fibonacci_number(n as nat) <= u32::MAX,
    {
        proof {
            lemma_fibonacci_increases((index + 1) as nat, n as nat);
        }
        list.push(fib(index));
    }
    list
}

} // verus!
