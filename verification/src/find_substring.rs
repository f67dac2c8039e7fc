//! Where a text occurs in another, found in a loop and found recursively.
//!
//! Both searches compare bytes and answer with a byte position, or with -1.
//! Both stop one position early: a needle at the very end of the haystack is
//! not found.

use vstd::prelude::*;
use vstd::string::StringSliceAdditionalSpecFns;

verus! {

/// The needle stands in the haystack at position `at`.
pub open spec fn occurs_at(needle: Seq<u8>, haystack: Seq<u8>, at: int) -> bool {
    0 <= at && at + needle.len() <= haystack.len() && haystack.subrange(at, at + needle.len())
        == needle
}

/// What a search answers: the first position before `limit` where the needle
/// stands, or -1 if it stands at none of them.
pub open spec fn first_before(needle: Seq<u8>, haystack: Seq<u8>, limit: int, found: int) -> bool {
    if found == -1 {
        forall|at: int| 0 <= at < limit ==> !occurs_at(needle, haystack, at)
    } else {
        &&& 0 <= found < limit
        &&& occurs_at(needle, haystack, found)
        &&& forall|at: int| 0 <= at < found ==> !occurs_at(needle, haystack, at)
    }
}

/// Whether the needle stands in the haystack at position `at`.
fn stands_at(needle: &[u8], haystack: &[u8], at: usize) -> (found: bool)
    requires
        at + needle@.len() <= haystack@.len(),
    ensures
        found == occurs_at(needle@, haystack@, at as int),
{
    let ghost part = haystack@.subrange(at as int, at + needle@.len());
    let length = haystack.len();
    let mut same: usize = 0;
    while same < needle.len()
        invariant
            same <= needle@.len(),
            at + needle@.len() <= haystack@.len() == length,
            part == haystack@.subrange(at as int, at + needle@.len()),
            forall|i: int| 0 <= i < same ==> part[i] == needle@[i],
        decreases needle@.len() - same,
    {
        if haystack[at + same] != needle[same] {
            assert(part[same as int] != needle@[same as int]);
            return false;
        }
        same += 1;
    }
    assert(part =~= needle@);
    true
}

/// The first position at which the needle stands in the haystack, in a loop
/// over the positions; -1 if there is none.
///
/// The positions tried are those before `haystack.len() - needle.len()`, so
/// the needle must not be longer than the haystack.
pub fn find_substring_iterative(needle: &str, haystack: &str) -> (found: isize)
    requires
        needle.spec_bytes().len() <= haystack.spec_bytes().len() <= isize::MAX,
    ensures
        first_before(
            needle.spec_bytes(),
            haystack.spec_bytes(),
            haystack.spec_bytes().len() - needle.spec_bytes().len(),
            found as int,
        ),
{
    let needle_bytes = needle.as_bytes();
    let haystack_bytes = haystack.as_bytes();
    let limit = haystack_bytes.len() - needle_bytes.len();
    for i in 0..limit
        invariant
            needle_bytes@ == needle.spec_bytes(),
            haystack_bytes@ == haystack.spec_bytes(),
            limit == haystack_bytes@.len() - needle_bytes@.len(),
            haystack_bytes@.len() <= isize::MAX,
            forall|at: int| 0 <= at < i ==> !occurs_at(needle_bytes@, haystack_bytes@, at),
    {
        if stands_at(needle_bytes, haystack_bytes, i) {
            return i as isize;
        }
    }
    -1
}

/// The search from position `i` on.
fn imp(needle: &[u8], haystack: &[u8], i: usize) -> (found: isize)
    requires
        needle@.len() <= isize::MAX,
        haystack@.len() <= isize::MAX,
        i <= haystack@.len(),
        forall|at: int| 0 <= at < i ==> !occurs_at(needle@, haystack@, at),
    ensures
        first_before(needle@, haystack@, haystack@.len() - needle@.len(), found as int),
    decreases haystack@.len() - i,
{
    if i + needle.len() >= haystack.len() {
        -1
    } else if stands_at(needle, haystack, i) {
        i as isize
    } else {
        imp(needle, haystack, i + 1)
    }
}

/// The first position at which the needle stands in the haystack, found
/// recursively; -1 if there is none, and so for a needle that is longer than
/// the haystack.
pub fn find_substring_recursive(needle: &str, haystack: &str) -> (found: isize)
    requires
        needle.spec_bytes().len() <= isize::MAX,
        haystack.spec_bytes().len() <= isize::MAX,
    ensures
        first_before(
            needle.spec_bytes(),
            haystack.spec_bytes(),
            haystack.spec_bytes().len() - needle.spec_bytes().len(),
            found as int,
        ),
{
    imp(needle.as_bytes(), haystack.as_bytes(), 0)
}

} // verus!
