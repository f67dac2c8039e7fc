//! Counting down to zero on the way into a recursion and up again on the
//! way out.

use vstd::prelude::*;
use crate::text::{decimal, texts, write_decimal};

verus! {

/// The lines that counting down from `number` and up again gives: the
/// number, then the lines for the number below it, then the number
/// `returning`. At 0 the count turns round.
pub open spec fn count_lines(number: nat) -> Seq<Seq<char>>
    decreases number,
{
    if number == 0 {
        seq![decimal(0), "Reached the base case."@]
    } else {
        seq![decimal(number)] + count_lines((number - 1) as nat) + seq![
            decimal(number) + " returning"@,
        ]
    }
}

/// Appends the lines of a count from `number` down to 0 and back up.
///
/// The count goes down by one at a time and only stops at 0, so it cannot
/// start below 0.
pub fn count_down_and_up(number: i32, lines: &mut Vec<String>)
    requires
        number >= 0,
    ensures
        texts(final(lines)@) == texts(old(lines)@) + count_lines(number as nat),
    decreases number,
{
    let mut line = String::new();
    write_decimal(&mut line, number as usize);
    assert(line@ =~= decimal(number as nat));
    if number == 0 {
        lines.push(line);
        lines.push("Reached the base case.".to_owned());
        assert(texts(lines@) =~= texts(old(lines)@) + count_lines(0));
        return ;
    }
    let returning = line.clone().concat(" returning");
    lines.push(line);
    let ghost entered = lines@;
    count_down_and_up(number - 1, lines);
    let ghost counted = lines@;
    lines.push(returning);
    proof {
        assert(texts(entered) =~= texts(old(lines)@) + seq![decimal(number as nat)]);
        assert(texts(lines@) =~= texts(counted) + seq![decimal(number as nat) + " returning"@]);
        assert(texts(lines@) =~= texts(old(lines)@) + count_lines(number as nat));
    }
}

} // verus!
