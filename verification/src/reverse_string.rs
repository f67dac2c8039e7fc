//! A text turned around.

use vstd::prelude::*;
use crate::text::chars_of;

verus! {

/// Appends the characters from `from` on, the last one first.
fn rev_from(chars: &Vec<char>, from: usize, reversed: &mut String)
    requires
        from <= chars@.len(),
    ensures
        final(reversed)@ == old(reversed)@ + chars@.skip(from as int).reverse(),
    decreases chars@.len() - from,
{
    let ghost tail = chars@.skip(from as int);
    if from == chars.len() {
        assert(reversed@ =~= old(reversed)@ + tail.reverse());
    } else {
        rev_from(chars, from + 1, reversed);
        reversed.push(chars[from]);
        assert(tail.reverse() =~= chars@.skip(from + 1).reverse().push(chars@[from as int]));
        assert(reversed@ =~= old(reversed)@ + tail.reverse());
    }
}

/// The characters of a text in the opposite order.
pub fn rev(the_string: &str) -> (reversed: String)
    ensures
        reversed@ == the_string@.reverse(),
{
    let chars = chars_of(the_string);
    let mut reversed = String::new();
    rev_from(&chars, 0, &mut reversed);
    assert(chars@.skip(0) =~= chars@);
    assert(reversed@ =~= the_string@.reverse());
    reversed
}

} // verus!
