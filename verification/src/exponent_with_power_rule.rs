//! A power by the power rule, with a stack in place of the recursion: once
//! as a plan of steps that is then carried out, once on the binary digits of
//! the exponent.

use vstd::prelude::*;
use vstd::arithmetic::power::{lemma_pow0, lemma_pow1, lemma_pow_adds, pow};
use vstd::arithmetic::power2::{lemma2_to64, pow2};
use crate::power::{
    binary_value,
    lemma_join_digit,
    lemma_pow_within,
    lemma_read_bounded,
    lemma_split_digit,
};

verus! {

/// A step on the way to a power.
#[derive(Clone, Copy, Debug, PartialEq, Eq, Structural)]
pub enum Op {
    /// Multiply by the base once more: the exponent grows by one.
    Multiply,
    /// Multiply by itself: the exponent doubles.
    Square,
}

/// The exponent that a step makes of the exponent `e`.
pub open spec fn step(op: Op, e: nat) -> nat {
    match op {
        Op::Multiply => e + 1,
        Op::Square => 2 * e,
    }
}

/// The exponent reached from `e` by taking the steps off the stack, the last
/// one first.
pub open spec fn climb(ops: Seq<Op>, e: nat) -> nat
    decreases ops.len(),
{
    if ops.len() == 0 {
        e
    } else {
        climb(ops.drop_last(), step(ops.last(), e))
    }
}

/// No step makes an exponent smaller.
pub proof fn lemma_climb_grows(ops: Seq<Op>, e: nat)
    ensures
        climb(ops, e) >= e,
    decreases ops.len(),
{
    if ops.len() > 0 {
        lemma_climb_grows(ops.drop_last(), step(ops.last(), e));
    }
}

/// Raises `a` to the power `n` by the power rule: halve an even exponent and
/// square, lower an odd one by 1 and multiply. The steps are first planned,
/// from `n` down to 1, then taken in the opposite order, starting at `a`.
///
/// Starting at `a` leaves no room for an exponent of 0: for `n == 0` the
/// result is `a` as well, not 1.
pub fn exponent_with_power_rule(a: i64, n: u32) -> (result: i64)
    requires
        i64::MIN <= pow(a as int, if n == 0 { 1nat } else { n as nat }) <= i64::MAX,
    ensures
        result == pow(a as int, if n == 0 { 1nat } else { n as nat }),
{
    exponent_with_power_rule_usize(a, n as usize)
}

/// The power rule for an exponent that is a `usize`. The steps are planned
/// from `n` down to 1, one for each halving and each lowering by 1, and
/// taken in the opposite order, starting at `a`, so that `n == 0` gives `a`
/// as well.
pub fn exponent_with_power_rule_usize(a: i64, n: usize) -> (result: i64)
    requires
        i64::MIN <= pow(a as int, if n == 0 { 1nat } else { n as nat }) <= i64::MAX,
    ensures
        result == pow(a as int, if n == 0 { 1nat } else { n as nat }),
{
    let ghost goal: nat = if n == 0 { 1nat } else { n as nat };
    let mut rest = n;
    let mut op_stack: Vec<Op> = Vec::new();
    while rest > 1
        invariant
            climb(op_stack@, if rest == 0 { 1nat } else { rest as nat }) == goal,
        decreases rest,
    {
        let ghost planned = op_stack@;
        if rest % 2 == 0 {
            op_stack.push(Op::Square);
            rest /= 2;
        } else {
            rest -= 1;
            op_stack.push(Op::Multiply);
        }
        assert(op_stack@.drop_last() =~= planned);
    }
    let mut result = a;
    let ghost mut reached: nat = 1;
    proof {
        lemma_pow1(a as int);
    }
    while op_stack.len() > 0
        invariant
            reached >= 1,
            result == pow(a as int, reached),
            climb(op_stack@, reached) == goal,
            i64::MIN <= pow(a as int, goal) <= i64::MAX,
        decreases op_stack@.len(),
    {
        let ghost planned = op_stack@;
        let op = op_stack.pop().unwrap();
        proof {
            assert(op_stack@ =~= planned.drop_last());
            lemma_climb_grows(op_stack@, step(op, reached));
            lemma_pow_within(a as int, step(op, reached), goal, i64::MAX as int);
            lemma_pow_adds(a as int, reached, 1);
            lemma_pow_adds(a as int, reached, reached);
            lemma_pow1(a as int);
        }
        match op {
            Op::Multiply => {
                result = result * a;
            },
            Op::Square => {
                result = result * result;
            },
        }
        proof {
            reached = step(op, reached);
        }
    }
    result
}

/// Raises `a` to the power `n` by the power rule on the binary digits of
/// `n`: for each digit, highest first, square, and multiply by `a` where the
/// digit is 1. An exponent of 0 gives 1.
pub fn exponent_with_power_rule_simplified(a: i64, n: u32) -> (result: i64)
    requires
        i64::MIN <= pow(a as int, n as nat) <= i64::MAX,
    ensures
        result == pow(a as int, n as nat),
{
    let ghost whole = n as nat;
    let mut rest = n;
    let mut carries: Vec<u32> = Vec::new();
    proof {
        lemma2_to64();
        assert(carries@.len() == 0);
    }
    while rest != 0
        invariant
            rest * pow2(carries@.len()) + binary_value(carries@) == whole,
            forall|i: int| 0 <= i < carries@.len() ==> carries@[i] <= 1,
        decreases rest,
    {
        proof {
            lemma_split_digit(rest as nat, carries@);
        }
        carries.push(rest % 2);
        rest /= 2;
    }
    let mut result: i64 = 1;
    let ghost mut read: nat = 0;
    proof {
        lemma_pow0(a as int);
    }
    while carries.len() > 0
        invariant
            result == pow(a as int, read),
            whole == n,
            read * pow2(carries@.len()) + binary_value(carries@) == whole,
            forall|i: int| 0 <= i < carries@.len() ==> carries@[i] <= 1,
            i64::MIN <= pow(a as int, whole) <= i64::MAX,
        decreases carries@.len(),
    {
        let ghost digits = carries@;
        let carry = carries.pop().unwrap();
        proof {
            assert(carries@ =~= digits.drop_last());
            assert(carry == digits.last());
            lemma_join_digit(read, digits);
            lemma_read_bounded(2 * read + carry as nat, carries@, whole);
            lemma_pow_within(a as int, 2 * read, whole, i64::MAX as int);
            lemma_pow_within(a as int, 2 * read + carry as nat, whole, i64::MAX as int);
            lemma_pow_adds(a as int, read, read);
            lemma_pow_adds(a as int, 2 * read, 1);
            lemma_pow1(a as int);
        }
        result = result * result;
        if carry != 0 {
            result = result * a;
        }
        proof {
            read = 2 * read + carry as nat;
        }
    }
    proof {
        lemma2_to64();
        assert(carries@.len() == 0);
        assert(binary_value(carries@) == 0);
        assert(read * pow2(0) == read) by (nonlinear_arith)
            requires
                pow2(0) == 1,
        ;
        assert(read == whole);
    }
    result
}

} // verus!
