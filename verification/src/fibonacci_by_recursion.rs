//! Fibonacci numbers, recursively.

use vstd::prelude::*;
use crate::text::{decimal, texts, write_decimal};

verus! {

/// The Fibonacci numbers: 0, 1, and from there on the sum of the two
/// before.
pub open spec fn fibonacci_number(n: nat) -> nat
    decreases n,
{
    if n < 2 {
        n
    } else {
        fibonacci_number((n - 1) as nat) + fibonacci_number((n - 2) as nat)
    }
}

/// The Fibonacci numbers never fall.
pub proof fn lemma_fibonacci_increases(i: nat, j: nat)
    requires
        i <= j,
    ensures
        fibonacci_number(i) <= fibonacci_number(j),
    decreases j,
{
    if i < j {
        if j >= 2 {
            lemma_fibonacci_increases(i, (j - 1) as nat);
        }
    }
}

/// The `n`-th Fibonacci number, counting from 0. It must fit 32 bits.
pub fn fibonacci(n: usize) -> (result: u32)
    requires
        fibonacci_number(n as nat) <= u32::MAX,
    ensures
        result == fibonacci_number(n as nat),
    decreases n,
{
    if n < 2 {
        return n as u32;
    }
    proof {
        lemma_fibonacci_increases((n - 1) as nat, n as nat);
        lemma_fibonacci_increases((n - 2) as nat, n as nat);
    }
    fibonacci(n - 1) + fibonacci(n - 2)
}

/// The line that reports a call.
pub open spec fn called_line(n: nat) -> Seq<char> {
    "fibonacci("@ + decimal(n) + ") called."@
}

/// The line that announces the two calls that a call makes.
pub open spec fn calling_line(n: nat) -> Seq<char> {
    "Calling fibonacci("@ + decimal((n - 1) as nat) + ") and fibonacci("@ + decimal(
        (n - 2) as nat,
    ) + ")"@
}

/// The line that reports what a call returns. Where the recursion ends the
/// line says `1` whatever is returned.
pub open spec fn returning_line(n: nat) -> Seq<char> {
    if n < 2 {
        "Call to fibonacci("@ + decimal(n) + ") returning 1."@
    } else {
        "Call to fibonacci("@ + decimal(n) + ") returning "@ + decimal(fibonacci_number(n))
            + "."@
    }
}

/// The lines that the calls for the `n`-th number report, in the order in
/// which the calls are made and return.
pub open spec fn call_lines(n: nat) -> Seq<Seq<char>>
    decreases n,
{
    if n < 2 {
        seq![called_line(n), returning_line(n)]
    } else {
        seq![called_line(n), calling_line(n)] + call_lines((n - 1) as nat) + call_lines(
            (n - 2) as nat,
        ) + seq![returning_line(n)]
    }
}

/// A line made of a text, a number in decimal, and another text.
fn line_of(before: &str, n: usize, after: &str) -> (line: String)
    ensures
        line@ == before@ + decimal(n as nat) + after@,
{
    let mut line = String::new();
    line.append(before);
    write_decimal(&mut line, n);
    line.append(after);
    assert(line@ =~= before@ + decimal(n as nat) + after@);
    line
}

/// The `n`-th Fibonacci number as [`fibonacci`] finds it, with a line
/// appended for every call made, for the two calls it makes in turn, and
/// for its return.
pub fn fibonacci_traced(n: usize, lines: &mut Vec<String>) -> (result: u32)
    requires
        fibonacci_number(n as nat) <= u32::MAX,
    ensures
        result == fibonacci_number(n as nat),
        texts(final(lines)@) == texts(old(lines)@) + call_lines(n as nat),
    decreases n,
{
    lines.push(line_of("fibonacci(", n, ") called."));
    if n < 2 {
        lines.push(line_of("Call to fibonacci(", n, ") returning 1."));
        assert(texts(lines@) =~= texts(old(lines)@) + call_lines(n as nat));
        return n as u32;
    }
    let mut calling = line_of("Calling fibonacci(", n - 1, ") and fibonacci(");
    write_decimal(&mut calling, n - 2);
    calling.append(")");
    assert(calling@ =~= calling_line(n as nat));
    lines.push(calling);
    proof {
        lemma_fibonacci_increases((n - 1) as nat, n as nat);
        lemma_fibonacci_increases((n - 2) as nat, n as nat);
    }
    let ghost entered = lines@;
    let first = fibonacci_traced(n - 1, lines);
    let ghost half = lines@;
    let second = fibonacci_traced(n - 2, lines);
    let ghost called = lines@;
    let result = first + second;
    let mut returning = line_of("Call to fibonacci(", n, ") returning ");
    write_decimal(&mut returning, result as usize);
    returning.append(".");
    assert(returning@ =~= returning_line(n as nat));
    lines.push(returning);
    proof {
        assert(texts(entered) =~= texts(old(lines)@) + seq![
            called_line(n as nat),
            calling_line(n as nat),
        ]);
        assert(texts(lines@) =~= texts(called) + seq![returning_line(n as nat)]);
        assert(texts(lines@) =~= texts(old(lines)@) + call_lines(n as nat));
    }
    result
}

} // verus!
