//! Integer powers in 32 bits, in a logarithmic number of multiplications and
//! without recursion.

use vstd::prelude::*;
use vstd::arithmetic::power::{lemma_pow0, lemma_pow1, lemma_pow_adds};
use vstd::arithmetic::power2::{lemma2_to64, pow2};
use crate::power::{
    binary_value,
    lemma_join_digit,
    lemma_pow_within,
    lemma_read_bounded,
    lemma_split_digit,
};

verus! {

/// `a` to the power `n`, as a mathematical integer.
pub open spec fn power(a: int, n: nat) -> int {
    vstd::arithmetic::power::pow(a, n)
}

/// Raises `a` to the power `n` by the power rule on the binary digits of
/// `n`: for each digit, highest first, square, and multiply by `a` where the
/// digit is 1. An exponent of 0 gives 1.
///
/// The power must fit 32 bits; then every product on the way fits too.
pub fn pow(a: i32, n: u32) -> (result: i32)
    requires
        i32::MIN <= power(a as int, n as nat) <= i32::MAX,
    ensures
        result == power(a as int, n as nat),
{
    let ghost whole = n as nat;
    let mut rest = n;
    let mut carries: Vec<u32> = Vec::new();
    proof {
        lemma2_to64();
        assert(carries@.len() == 0);
    }
    while rest != 0
        invariant
            rest * pow2(carries@.len()) + binary_value(carries@) == whole,
            forall|i: int| 0 <= i < carries@.len() ==> carries@[i] <= 1,
        decreases rest,
    {
        proof {
            lemma_split_digit(rest as nat, carries@);
        }
        carries.push(rest % 2);
        rest /= 2;
    }
    let mut result: i32 = 1;
    let ghost mut read: nat = 0;
    proof {
        lemma_pow0(a as int);
    }
    while carries.len() > 0
        invariant
            result == power(a as int, read),
            whole == n,
            read * pow2(carries@.len()) + binary_value(carries@) == whole,
            forall|i: int| 0 <= i < carries@.len() ==> carries@[i] <= 1,
            i32::MIN <= power(a as int, whole) <= i32::MAX,
        decreases carries@.len(),
    {
        let ghost digits = carries@;
        let carry = carries.pop().unwrap();
        proof {
            assert(carries@ =~= digits.drop_last());
            assert(carry == digits.last());
            lemma_join_digit(read, digits);
            lemma_read_bounded(2 * read + carry as nat, carries@, whole);
            lemma_pow_within(a as int, 2 * read, whole, i32::MAX as int);
            lemma_pow_within(a as int, 2 * read + carry as nat, whole, i32::MAX as int);
            lemma_pow_adds(a as int, read, read);
            lemma_pow_adds(a as int, 2 * read, 1);
            lemma_pow1(a as int);
        }
        result = result * result;
        if carry != 0 {
            result = result * a;
        }
        proof {
            read = 2 * read + carry as nat;
        }
    }
    proof {
        lemma2_to64();
        assert(carries@.len() == 0);
        assert(binary_value(carries@) == 0);
        assert(read * pow2(0) == read) by (nonlinear_arith)
            requires
                pow2(0) == 1,
        ;
        assert(read == whole);
    }
    result
}

} // verus!
