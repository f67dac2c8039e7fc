//! What the power functions of this crate share: why the products on the
//! way to a power fit the integer type whenever the power does, and how a
//! number relates to its binary digits.

use vstd::prelude::*;
use vstd::arithmetic::power::{
    lemma0_pow,
    lemma1_pow,
    lemma_pow0,
    lemma_pow1,
    lemma_pow_adds,
    lemma_pow_increases,
    lemma_pow_positive,
    pow,
};
use vstd::arithmetic::power2::{lemma_pow2_pos, lemma_pow2_unfold, pow2};

verus! {

/// The distance of an integer from zero.
pub open spec fn magnitude(x: int) -> int {
    if x < 0 {
        -x
    } else {
        x
    }
}

/// The magnitude of a power is the power of the magnitude.
pub proof fn lemma_pow_magnitude(a: int, e: nat)
    ensures
        magnitude(pow(a, e)) == pow(magnitude(a), e),
    decreases e,
{
    reveal(pow);
    if e > 0 {
        lemma_pow_magnitude(a, (e - 1) as nat);
        let rest = pow(a, (e - 1) as nat);
        assert(magnitude(a * rest) == magnitude(a) * magnitude(rest)) by (nonlinear_arith);
    }
}

/// Where a power lies between `-limit - 1` and `limit`, which is what fits a
/// signed integer type, so does every power of the same base with a smaller
/// exponent.
pub proof fn lemma_pow_within(a: int, k: nat, n: nat, limit: int)
    requires
        k <= n,
        limit >= 1,
        -limit - 1 <= pow(a, n) <= limit,
    ensures
        -limit - 1 <= pow(a, k) <= limit,
{
    let m = magnitude(a);
    lemma_pow_magnitude(a, k);
    lemma_pow_magnitude(a, n);
    if m == 0 {
        if k == 0 {
            lemma_pow0(0);
        } else {
            lemma0_pow(k);
        }
    } else if m == 1 {
        lemma1_pow(k);
    } else if k < n {
        let low = pow(m, k);
        lemma_pow_adds(m, k, 1);
        lemma_pow1(m);
        lemma_pow_positive(m, k);
        lemma_pow_increases(m as nat, k + 1, n);
        assert(low * m >= low * 2) by (nonlinear_arith)
            requires
                low > 0,
                m >= 2,
        ;
    }
}

/// The number that binary digits stand for, the first digit counting least.
pub open spec fn binary_value(digits: Seq<u32>) -> nat
    decreases digits.len(),
{
    if digits.len() == 0 {
        0
    } else {
        binary_value(digits.drop_last()) + (digits.last() as nat) * pow2(
            (digits.len() - 1) as nat,
        )
    }
}

/// Splitting off the lowest binary digit: what is left to split, times the
/// weight of the next digit, plus the digits so far, stays the same number.
pub proof fn lemma_split_digit(n: nat, digits: Seq<u32>)
    ensures
        (n / 2) * pow2(digits.len() + 1) + binary_value(digits.push((n % 2) as u32)) == n * pow2(
            digits.len(),
        ) + binary_value(digits),
{
    let weight = pow2(digits.len());
    lemma_pow2_unfold(digits.len() + 1);
    assert(digits.push((n % 2) as u32).drop_last() =~= digits);
    assert((n / 2) * (2 * weight) + (n % 2) * weight == n * weight) by (nonlinear_arith);
}

/// Taking in the highest binary digit: the number read so far doubles and
/// gains the digit, and the digit's weight passes to the digits left.
pub proof fn lemma_join_digit(read: nat, digits: Seq<u32>)
    requires
        digits.len() > 0,
    ensures
        (2 * read + digits.last()) * pow2((digits.len() - 1) as nat) + binary_value(
            digits.drop_last(),
        ) == read * pow2(digits.len()) + binary_value(digits),
{
    let weight = pow2((digits.len() - 1) as nat);
    let digit = digits.last() as int;
    lemma_pow2_unfold(digits.len());
    assert((2 * read + digit) * weight == read * (2 * weight) + digit * weight)
        by (nonlinear_arith);
}

/// The number read so far is no more than the whole number.
pub proof fn lemma_read_bounded(read: nat, digits: Seq<u32>, whole: nat)
    requires
        read * pow2(digits.len()) + binary_value(digits) == whole,
    ensures
        read <= whole,
{
    lemma_pow2_pos(digits.len());
    let weight = pow2(digits.len());
    assert(read * weight >= read) by (nonlinear_arith)
        requires
            weight >= 1,
            read >= 0,
    ;
}

} // verus!
