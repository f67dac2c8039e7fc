//! The shortest recursion that ends: one call that may make one more.

use vstd::prelude::*;
use crate::text::texts;

verus! {

/// The lines of a call. One that is to recurse reports itself, makes the
/// one call that does not recurse, and reports its own return.
pub open spec fn call_lines(make_recursive_call: bool) -> Seq<Seq<char>> {
    if make_recursive_call {
        seq![
            "shortest_with_base_case(true) called."@,
            "shortest_with_base_case(false) called."@,
            "Returning from base case."@,
            "Returning from recursive case."@,
        ]
    } else {
        seq!["shortest_with_base_case(false) called."@, "Returning from base case."@]
    }
}

/// Appends the lines of a call that recurses once, or not at all.
pub fn shortest_with_base_case(make_recursive_call: bool, lines: &mut Vec<String>)
    ensures
        texts(final(lines)@) == texts(old(lines)@) + call_lines(make_recursive_call),
    decreases (if make_recursive_call { 1int } else { 0int }),
{
    if !make_recursive_call {
        lines.push("shortest_with_base_case(false) called.".to_owned());
        lines.push("Returning from base case.".to_owned());
        assert(texts(lines@) =~= texts(old(lines)@) + call_lines(false));
        return ;
    }
    lines.push("shortest_with_base_case(true) called.".to_owned());
    let ghost entered = lines@;
    shortest_with_base_case(false, lines);
    let ghost called = lines@;
    lines.push("Returning from recursive case.".to_owned());
    proof {
        assert(texts(entered) =~= texts(old(lines)@) + seq![
            "shortest_with_base_case(true) called."@,
        ]);
        assert(texts(lines@) =~= texts(called) + seq!["Returning from recursive case."@]);
        assert(texts(lines@) =~= texts(old(lines)@) + call_lines(true));
    }
}

} // verus!
