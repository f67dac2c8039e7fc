//! The factorial by a recursion that is played out on a stack of our own:
//! each entry stands for a call, and says where that call is to go on once
//! the call above it has returned.

use vstd::prelude::*;
use crate::factorial_by_recursion::{factorial_of, lemma_factorial_increases};

verus! {

/// Where a call goes on.
#[derive(Clone, Copy, Debug, PartialEq, Eq, Structural)]
pub enum ReturnAddr {
    /// At its beginning: the call has just been made.
    Start,
    /// Behind its recursive call: the call above it has returned.
    AfterRecursiveCall,
}

/// One call of the function: its argument, and where it goes on.
#[derive(Clone, Copy, Debug)]
pub struct Call {
    pub return_addr: ReturnAddr,
    pub number: u32,
}

/// The calls on the stack are those for `number`, `number - 1` and so on,
/// without a gap, none for less than 1.
pub open spec fn is_call_chain(stack: Seq<Call>, number: u32) -> bool {
    forall|i: int| 0 <= i < stack.len() ==> (#[trigger] stack[i]).number == number - i >= 1
}

/// Every call but the topmost waits for the call above it.
pub open spec fn lower_calls_wait(stack: Seq<Call>) -> bool {
    forall|i: int|
        0 <= i < stack.len() - 1 ==> (#[trigger] stack[i]).return_addr
            == ReturnAddr::AfterRecursiveCall
}

/// How many more turns of the loop a stack stands for.
pub open spec fn turns_left(stack: Seq<Call>) -> int {
    if stack.len() > 0 && stack.last().return_addr == ReturnAddr::Start {
        stack.len() + 2 * stack.last().number
    } else {
        stack.len() as int
    }
}

/// The factorial of `number`, which must fit 32 bits.
///
/// The recursion that is played out here ends at 1, so `number` is at least
/// 1.
pub fn factorial(number: u32) -> (product: u32)
    requires
        number >= 1,
        factorial_of(number as nat) <= u32::MAX,
    ensures
        product == factorial_of(number as nat),
{
    let mut call_stack: Vec<Call> = Vec::new();
    call_stack.push(Call { return_addr: ReturnAddr::Start, number });
    let mut return_value: Option<u32> = None;
    while call_stack.len() > 0
        invariant
            number >= 1,
            factorial_of(number as nat) <= u32::MAX,
            is_call_chain(call_stack@, number),
            lower_calls_wait(call_stack@),
            call_stack@.len() <= number,
            match return_value {
                None => call_stack@.len() > 0 && call_stack@.last().return_addr
                    == ReturnAddr::Start,
                Some(value) => call_stack@.len() < number && value == factorial_of(
                    (number - call_stack@.len()) as nat,
                ) && (call_stack@.len() > 0 ==> call_stack@.last().return_addr
                    == ReturnAddr::AfterRecursiveCall),
            },
        decreases turns_left(call_stack@),
    {
        let top = call_stack.len() - 1;
        let call = call_stack[top];
        let ghost calls = call_stack@;
        assert(calls[top as int].number == number - top);
        match call.return_addr {
            ReturnAddr::Start => {
                if call.number == 1 {
                    return_value = Some(1);
                    call_stack.pop();
                    assert(factorial_of(1) == 1) by {
                        reveal_with_fuel(factorial_of, 2);
                    }
                } else {
                    call_stack.set(
                        top,
                        Call { return_addr: ReturnAddr::AfterRecursiveCall, number: call.number },
                    );
                    call_stack.push(Call { return_addr: ReturnAddr::Start, number: call.number - 1 });
                }
            },
            ReturnAddr::AfterRecursiveCall => {
                proof {
                    lemma_factorial_increases(call.number as nat, number as nat);
                }
                return_value =
                match return_value {
                    Some(value) => Some(call.number * value),
                    None => None,
                };
                call_stack.pop();
            },
        }
    }
    return_value.unwrap()
}

} // verus!
