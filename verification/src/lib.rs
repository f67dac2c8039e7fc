//! Exercises in recursion, each with a machine-checked contract.
//!
//! The centrepiece is a Tower of Hanoi solver with a text renderer and an
//! interactive command interpreter; around it stand smaller exercises on
//! exponentiation, factorials, Fibonacci numbers, substring search,
//! palindromes, string reversal and summation.

pub mod count_down_and_up;
pub mod exponent_by_iteration;
pub mod exponent_by_recursion;
pub mod exponent_with_power_rule;
pub mod factorial_by_iteration;
pub mod factorial_emulate_recursion;
pub mod factorial_by_recursion;
pub mod fibonacci_by_iteration;
pub mod fibonacci_by_recursion;
pub mod fibs;
pub mod find_substring;
pub mod hanoi;
pub mod palindrome;
pub mod pow;
pub mod power;
pub mod reverse_string;
pub mod shortest_with_base_case;
pub mod sum_head_tail;
pub mod text;
