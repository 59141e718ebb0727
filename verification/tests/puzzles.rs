use worker_pipeline::euler::{eu1, eu2, eu3, euOne, euTwo};
use worker_pipeline::primes::largest_prime_factor;

#[test]
fn sum_of_multiples_below_one_thousand() {
    assert_eq!(eu1(), 233168);
}

#[test]
fn tail_recursive_sum_agrees() {
    assert_eq!(euOne(), 233168);
    assert_eq!(euOne(), eu1());
}

#[test]
fn even_fibonacci_sum_below_four_million() {
    assert_eq!(eu2(), 4613732);
}

#[test]
fn tail_recursive_fibonacci_sum_agrees() {
    assert_eq!(euTwo(), 4613732);
    assert_eq!(euTwo(), eu2());
}

#[test]
fn largest_prime_factor_of_the_puzzle_number() {
    assert_eq!(eu3(), 6857);
}

#[test]
fn largest_prime_factor_of_small_numbers() {
    assert_eq!(largest_prime_factor(2), 2);
    assert_eq!(largest_prime_factor(3), 3);
    assert_eq!(largest_prime_factor(4), 2);
    assert_eq!(largest_prime_factor(12), 3);
    assert_eq!(largest_prime_factor(13), 13);
    assert_eq!(largest_prime_factor(30), 5);
    assert_eq!(largest_prime_factor(97), 97);
    assert_eq!(largest_prime_factor(1024), 2);
}
