//! The sum of a list, taken apart into its head and its tail.

use vstd::prelude::*;

verus! {

/// The sum of the numbers, as a mathematical integer.
pub open spec fn sum_of(numbers: Seq<i32>) -> int
    decreases numbers.len(),
{
    if numbers.len() == 0 {
        0
    } else {
        numbers.first() + sum_of(numbers.drop_first())
    }
}

/// Every sum that the recursion forms fits 32 bits: that of the whole list
/// and of each of its tails.
pub open spec fn tails_fit(numbers: Seq<i32>) -> bool {
    forall|i: int|
        0 <= i <= numbers.len() ==> i32::MIN <= #[trigger] sum_of(numbers.skip(i)) <= i32::MAX
}

/// The sum of the numbers: the first plus the sum of the others, and 0 for
/// no numbers.
pub fn sum(numbers: &[i32]) -> (total: i32)
    requires
        tails_fit(numbers@),
    ensures
        total == sum_of(numbers@),
    decreases numbers@.len(),
{
    if numbers.is_empty() {
        0
    } else {
        let head = numbers[0];
        let tail = &numbers[1..numbers.len()];
        proof {
            assert(tail@ =~= numbers@.drop_first());
            assert(numbers@.skip(0) =~= numbers@);
            assert(i32::MIN <= sum_of(numbers@.skip(0)) <= i32::MAX);
            assert(numbers@.skip(1) =~= tail@);
            assert(i32::MIN <= sum_of(numbers@.skip(1)) <= i32::MAX);
            assert forall|i: int| 0 <= i <= tail@.len() implies i32::MIN <= #[trigger] sum_of(
                tail@.skip(i),
            ) <= i32::MAX by {
                assert(tail@.skip(i) =~= numbers@.skip(i + 1));
            }
        }
        head + sum(tail)
    }
}

} // verus!
