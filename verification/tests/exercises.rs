use recursion::count_down_and_up::count_down_and_up;
use recursion::exponent_by_iteration::exponent_by_iteration;
use recursion::exponent_by_recursion::exponent_by_recursion;
use recursion::exponent_with_power_rule::{
    exponent_with_power_rule, exponent_with_power_rule_simplified, exponent_with_power_rule_usize,
};
use recursion::fibs::{fib, fibs};
use recursion::find_substring::{find_substring_iterative, find_substring_recursive};
use recursion::palindrome::is_palindrome;
use recursion::pow::pow;
use recursion::reverse_string::rev;
use recursion::shortest_with_base_case::shortest_with_base_case;
use recursion::sum_head_tail::sum;
use recursion::text::{chars_of, write_decimal};

fn check_exponent_function_basic(pow: fn(i64, u32) -> i64) {
    for a in 0..5 {
        assert_eq!(pow(a, 0), 1);
        assert_eq!(pow(a, 1), a);
        assert_eq!(pow(a, 2), a * a);
        assert_eq!(pow(a, 3), a * a * a);
        assert_eq!(pow(a, 4), a * a * a * a);
        assert_eq!(pow(a, 5), a * a * a * a * a);
        assert_eq!(pow(a, 6), a * a * a * a * a * a);
    }
}

fn check_exponent_function_example(pow: fn(i64, u32) -> i64) {
    assert_eq!(pow(3, 6), 729);
    assert_eq!(pow(10, 3), 1000);
    assert_eq!(pow(17, 10), 2015993900449);
}

#[test]
fn test_exponent_with_power_rule_example() {
    check_exponent_function_example(exponent_with_power_rule);
}

#[test]
fn test_exponent_with_power_rule_simplified() {
    check_exponent_function_basic(exponent_with_power_rule_simplified);
    check_exponent_function_example(exponent_with_power_rule_simplified);
}

#[test]
fn exponent_with_power_rule_takes_exponent_zero_for_one() {
    for a in [-3, 0, 1, 7] {
        assert_eq!(exponent_with_power_rule(a, 0), a);
        assert_eq!(exponent_with_power_rule(a, 1), a);
        assert_eq!(exponent_with_power_rule(a, 5), a * a * a * a * a);
    }
}

#[test]
fn test_exponent_by_iteration() {
    assert_eq!(exponent_by_iteration(3, 6), 729);
    assert_eq!(exponent_by_iteration(10, 3), 1000);
    assert_eq!(exponent_by_iteration(17, 10), 2015993900449);
}

#[test]
fn exponent_by_recursion_test_exponent_by_iteration() {
    assert_eq!(exponent_by_recursion(3, 6), 729);
    assert_eq!(exponent_by_recursion(10, 3), 1000);
    assert_eq!(exponent_by_recursion(17, 10), 2015993900449);
}

#[test]
fn powers_reach_the_ends_of_the_integer_range() {
    assert_eq!(exponent_by_iteration(-2, 63), i64::MIN);
    assert_eq!(exponent_by_recursion(-2, 63), i64::MIN);
    assert_eq!(exponent_with_power_rule(-2, 63), i64::MIN);
    assert_eq!(exponent_with_power_rule_simplified(-2, 63), i64::MIN);
    assert_eq!(exponent_with_power_rule_simplified(3, 39), 4052555153018976267);
    assert_eq!(exponent_by_iteration(0, 0), 1);
    assert_eq!(exponent_by_iteration(-1, 1001), -1);
    assert_eq!(pow(-2, 31), i32::MIN);
    assert_eq!(pow(46340, 2), 2147395600);
    assert_eq!(pow(1, u32::MAX), 1);
}

#[test]
fn test_pow() {
    for a in 0..5 {
        assert_eq!(pow(a, 0), 1);
        assert_eq!(pow(a, 1), a);
        assert_eq!(pow(a, 2), a * a);
        assert_eq!(pow(a, 3), a * a * a);
        assert_eq!(pow(a, 4), a * a * a * a);
        assert_eq!(pow(a, 5), a * a * a * a * a);
        assert_eq!(pow(a, 6), a * a * a * a * a * a);
    }
}

#[test]
fn test_fib() {
    assert_eq!(fibs(10), [0, 1, 1, 2, 3, 5, 8, 13, 21, 34]);
}

#[test]
fn fibs_up_to_the_last_that_fits() {
    assert_eq!(fibs(0), Vec::<u32>::new());
    let all = fibs(47);
    assert_eq!(all.len(), 47);
    assert_eq!(all[46], 1836311903);
    assert_eq!(fib(46), 1836311903);
}

#[test]
fn test_factorial() {
    for (n, want) in [1, 1, 2, 6, 24, 120].into_iter().enumerate() {
        assert_eq!(recursion::factorial_by_recursion::factorial(n as u32), want);
    }
}

#[test]
fn factorial_by_iteration_test_factorial() {
    for (n, want) in [1, 1, 2, 6, 24, 120].into_iter().enumerate() {
        assert_eq!(recursion::factorial_by_iteration::factorial(n as u32), want);
    }
}

#[test]
fn factorial_of_twelve_is_the_last_that_fits() {
    assert_eq!(recursion::factorial_by_recursion::factorial(12), 479001600);
    assert_eq!(recursion::factorial_by_iteration::factorial(12), 479001600);
}

#[test]
fn test_fibonacci() {
    for (n, want) in [0, 1, 1, 2, 3, 5, 8, 13, 21, 34, 55]
        .into_iter()
        .enumerate()
    {
        let got = recursion::fibonacci_by_iteration::fibonacci(n);
        println!("n = {n}, got = {got}");
        assert_eq!(got, want);
    }
}

#[test]
fn fibonacci_by_recursion_test_fibonacci() {
    for (n, want) in [0, 1, 1, 2, 3, 5, 8, 13, 21, 34, 55].into_iter().enumerate() {
        let got = recursion::fibonacci_by_recursion::fibonacci(n);
        println!("n = {n}, got = {got}");
        assert_eq!(got, want);
    }
}

#[test]
fn fibonacci_counted_from_one() {
    let wanted = [1, 1, 1, 2, 3, 5, 8, 13, 21, 34, 55];
    for (n, want) in wanted.into_iter().enumerate() {
        assert_eq!(recursion::fibonacci_by_iteration::fibonacci_from_one(n), want);
    }
    assert_eq!(recursion::fibonacci_by_iteration::fibonacci_from_one(46), 1836311903);
}

#[test]
fn power_rule_with_a_wide_exponent() {
    assert_eq!(exponent_with_power_rule_usize(3, 6), 729);
    assert_eq!(exponent_with_power_rule_usize(10, 3), 1000);
    assert_eq!(exponent_with_power_rule_usize(17, 10), 2015993900449);
    assert_eq!(exponent_with_power_rule_usize(5, 0), 5);
    assert_eq!(exponent_with_power_rule_usize(-1, usize::MAX), -1);
}

#[test]
fn fibonacci_of_forty_six_by_iteration() {
    assert_eq!(recursion::fibonacci_by_iteration::fibonacci(46), 1836311903);
    assert_eq!(recursion::fibonacci_by_recursion::fibonacci(20), 6765);
}

#[test]
fn test_find_substring_iterative() {
    assert_eq!(find_substring_iterative("bat", "My cat Zophie"), -1);
    assert_eq!(find_substring_iterative("cat", "My cat Zophie"), 3);
}

#[test]
fn test_find_substring_recursive() {
    assert_eq!(find_substring_recursive("bat", "My cat Zophie"), -1);
    assert_eq!(find_substring_recursive("cat", "My cat Zophie"), 3);
}

#[test]
fn find_substring_stops_before_the_last_position() {
    for find in [find_substring_iterative, find_substring_recursive] {
        assert_eq!(find("cat", "My cat"), -1);
        assert_eq!(find("cat", "My cat!"), 3);
        assert_eq!(find("a", "banana"), 1);
        assert_eq!(find("", "abc"), 0);
        assert_eq!(find("", ""), -1);
        assert_eq!(find("abc", "abc"), -1);
        assert_eq!(find("\u{e9}", "caf\u{e9}s"), 3);
    }
    assert_eq!(find_substring_recursive("longer", "long"), -1);
}

#[test]
fn test_is_palindrome() {
    for (word, want) in [
        ("racecar", true),
        ("amanaplanacanalpanama", true),
        ("tacocat", true),
        ("zophie", false),
    ] {
        assert_eq!(is_palindrome(word), want);
    }
}

#[test]
fn palindromes_at_the_edges() {
    assert!(is_palindrome(""));
    assert!(is_palindrome("x"));
    assert!(is_palindrome("xx"));
    assert!(!is_palindrome("xy"));
    assert!(is_palindrome("\u{e9}t\u{e9}"));
    assert!(is_palindrome("\u{e9}\u{e9}"));
    assert!(!is_palindrome("\u{e9}"));
    assert!(!is_palindrome("a\u{e9}a"));
}

#[test]
fn test_rev() {
    assert_eq!(rev("abcdef"), "fedcba");
    assert_eq!(rev("Hello, world!"), "!dlrow ,olleH");
    assert_eq!(rev(""), "");
    assert_eq!(rev("X"), "X");
}

#[test]
fn rev_turns_characters_not_bytes() {
    assert_eq!(rev("caf\u{e9}s"), "s\u{e9}fac");
    assert_eq!(rev(&rev("Zophie \u{1f408}")), "Zophie \u{1f408}");
    assert_eq!(chars_of("h\u{e9}!"), vec!['h', '\u{e9}', '!']);
}

#[test]
fn test_sum() {
    assert_eq!(sum(&[1, 2, 3, 4, 5]), 15);
    assert_eq!(sum(&[5, 2, 4, 8]), 19);
    assert_eq!(sum(&[1, 10, 100, 1000]), 1111);
}

#[test]
fn sum_of_nothing_and_of_numbers_that_cancel() {
    assert_eq!(sum(&[]), 0);
    assert_eq!(sum(&[i32::MAX, -1, i32::MIN, 1]), -1);
}

#[test]
fn test() {
    let mut card_stack = Vec::new();

    card_stack.push("5 of diamonds");
    assert_eq!(card_stack, ["5 of diamonds"]);

    card_stack.push("3 of clubs");
    assert_eq!(card_stack, ["5 of diamonds", "3 of clubs"]);

    card_stack.push("ace of hearts");
    assert_eq!(card_stack, ["5 of diamonds", "3 of clubs", "ace of hearts"]);

    card_stack.pop();
    assert_eq!(card_stack, ["5 of diamonds", "3 of clubs"]);
}

#[test]
fn factorial_played_out_on_a_stack() {
    for (n, want) in [1, 1, 2, 6, 24, 120].into_iter().enumerate().skip(1) {
        assert_eq!(recursion::factorial_emulate_recursion::factorial(n as u32), want);
    }
    assert_eq!(recursion::factorial_emulate_recursion::factorial(12), 479001600);
}

#[test]
fn count_down_from_three_and_up_again() {
    let mut lines = Vec::new();
    count_down_and_up(3, &mut lines);
    assert_eq!(
        lines,
        [
            "3",
            "2",
            "1",
            "0",
            "Reached the base case.",
            "1 returning",
            "2 returning",
            "3 returning",
        ]
    );
    let mut lines = vec!["before".to_string()];
    count_down_and_up(0, &mut lines);
    assert_eq!(lines, ["before", "0", "Reached the base case."]);
    let mut lines = Vec::new();
    count_down_and_up(12, &mut lines);
    assert_eq!(lines.len(), 26);
    assert_eq!(lines[0], "12");
    assert_eq!(lines[25], "12 returning");
}

#[test]
fn shortest_recursion_with_and_without_its_call() {
    let mut lines = Vec::new();
    shortest_with_base_case(false, &mut lines);
    assert_eq!(
        lines,
        ["shortest_with_base_case(false) called.", "Returning from base case."]
    );
    let mut lines = Vec::new();
    shortest_with_base_case(true, &mut lines);
    assert_eq!(
        lines,
        [
            "shortest_with_base_case(true) called.",
            "shortest_with_base_case(false) called.",
            "Returning from base case.",
            "Returning from recursive case.",
        ]
    );
}

#[test]
fn decimal_of_small_and_large_numbers() {
    for n in [0usize, 7, 10, 99, 100, 12345, usize::MAX] {
        let mut text = String::from("n=");
        write_decimal(&mut text, n);
        assert_eq!(text, format!("n={n}"));
    }
}

#[test]
fn fibonacci_traces_every_call() {
    let mut lines = Vec::new();
    assert_eq!(recursion::fibonacci_by_recursion::fibonacci_traced(2, &mut lines), 1);
    assert_eq!(
        lines,
        [
            "fibonacci(2) called.",
            "Calling fibonacci(1) and fibonacci(0)",
            "fibonacci(1) called.",
            "Call to fibonacci(1) returning 1.",
            "fibonacci(0) called.",
            "Call to fibonacci(0) returning 1.",
            "Call to fibonacci(2) returning 1.",
        ]
    );
    let mut lines = vec!["before".to_string()];
    assert_eq!(recursion::fibonacci_by_recursion::fibonacci_traced(0, &mut lines), 0);
    assert_eq!(lines, ["before", "fibonacci(0) called.", "Call to fibonacci(0) returning 1."]);
    let mut lines = Vec::new();
    assert_eq!(recursion::fibonacci_by_recursion::fibonacci_traced(10, &mut lines), 55);
    assert_eq!(lines.len(), 442);
    assert_eq!(lines[1], "Calling fibonacci(9) and fibonacci(8)");
    assert_eq!(lines[441], "Call to fibonacci(10) returning 55.");
}
