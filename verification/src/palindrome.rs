//! Palindromes: texts that read the same in both directions.

use vstd::prelude::*;
use crate::text::chars_of;

verus! {

/// A character that takes a single byte in UTF-8: one below U+0080.
pub open spec fn is_single_byte(c: char) -> bool {
    (c as u32) < 0x80
}

/// Each character equals the one as far from the other end.
pub open spec fn mirrored(chars: Seq<char>) -> bool {
    forall|i: int| 0 <= i < chars.len() ==> #[trigger] chars[i] == chars[chars.len() - 1 - i]
}

/// What the recursion decides: a text of less than two bytes is a
/// palindrome; a longer one is if its first and last characters are two
/// equal characters and what lies between them is a palindrome.
pub open spec fn palindrome(chars: Seq<char>) -> bool
    decreases chars.len(),
{
    if chars.len() == 0 {
        true
    } else if chars.len() == 1 {
        is_single_byte(chars[0])
    } else {
        chars.first() == chars.last() && palindrome(chars.subrange(1, chars.len() - 1))
    }
}

/// The recursion finds exactly the mirrored texts, but for one kind: a text
/// of odd length whose middle character takes more than one byte is turned
/// down.
pub proof fn lemma_palindrome_mirrored(chars: Seq<char>)
    ensures
        palindrome(chars) == (mirrored(chars) && (chars.len() % 2 == 1 ==> is_single_byte(
            chars[chars.len() as int / 2],
        ))),
    decreases chars.len(),
{
    if chars.len() >= 2 {
        let inner = chars.subrange(1, chars.len() - 1);
        lemma_palindrome_mirrored(inner);
        assert(inner.len() == chars.len() - 2);
        if chars.len() % 2 == 1 {
            assert(inner[inner.len() as int / 2] == chars[chars.len() as int / 2]);
        }
        if mirrored(chars) {
            assert(chars[0] == chars[chars.len() - 1]);
            assert forall|i: int| 0 <= i < inner.len() implies #[trigger] inner[i]
                == inner[inner.len() - 1 - i] by {
                assert(chars[i + 1] == chars[chars.len() - 1 - (i + 1)]);
            }
        }
        if chars.first() == chars.last() && mirrored(inner) {
            assert forall|i: int| 0 <= i < chars.len() implies #[trigger] chars[i]
                == chars[chars.len() - 1 - i] by {
                if 0 < i < chars.len() - 1 {
                    assert(inner[i - 1] == inner[inner.len() - 1 - (i - 1)]);
                }
            }
        }
    }
}

/// Decides the part of a text from `from` up to `to`.
fn is_palindrome_between(chars: &Vec<char>, from: usize, to: usize) -> (found: bool)
    requires
        from <= to <= chars@.len(),
    ensures
        found == palindrome(chars@.subrange(from as int, to as int)),
    decreases to - from,
{
    let ghost part = chars@.subrange(from as int, to as int);
    if to - from == 0 {
        true
    } else if to - from == 1 {
        assert(part[0] == chars@[from as int]);
        (chars[from] as u32) < 0x80
    } else {
        assert(part.first() == chars@[from as int]);
        assert(part.last() == chars@[to - 1]);
        assert(part.subrange(1, part.len() - 1) =~= chars@.subrange(from + 1, to - 1));
        chars[from] == chars[to - 1] && is_palindrome_between(chars, from + 1, to - 1)
    }
}

/// Whether a text reads the same from both ends, character by character.
///
/// A text of odd length is only accepted if its middle character takes a
/// single byte: the recursion stops at texts of less than two bytes, and a
/// longer text of one character has no second character to match its first.
pub fn is_palindrome(the_string: &str) -> (found: bool)
    ensures
        found == (mirrored(the_string@) && (the_string@.len() % 2 == 1 ==> is_single_byte(
            the_string@[the_string@.len() as int / 2],
        ))),
{
    let chars = chars_of(the_string);
    proof {
        lemma_palindrome_mirrored(the_string@);
        assert(chars@.subrange(0, chars@.len() as int) =~= chars@);
    }
    is_palindrome_between(&chars, 0, chars.len())
}

} // verus!
