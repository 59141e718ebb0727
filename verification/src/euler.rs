//! Three number puzzles: the sum of the multiples of 3 or 5 below 1000
//! (once with a loop, once tail-recursively), the sum of the even
//! Fibonacci numbers up to 4,000,000 (likewise twice, with the two
//! original bounds), and the largest prime factor of 600,851,475,143.

use vstd::prelude::*;
use crate::primes;

verus! {

/// Sum of the numbers divisible by 3 or 5, from `cur` up to, but not
/// including, 1000.
pub open spec fn sum_of_multiples_from(cur: int) -> int
    decreases 1000 - cur,
{
    if cur >= 1000 {
        0
    } else {
        (if cur % 3 == 0 || cur % 5 == 0 {
            cur
        } else {
            0
        }) + sum_of_multiples_from(cur + 1)
    }
}

/// Sum of the natural numbers below 1000 divisible by 3 or 5.
pub fn eu1() -> (total: i64)
    ensures
        total == sum_of_multiples_from(1),
{
    let mut total: i64 = 0;
    let mut n: i64 = 1;
    while n < 1000
        invariant
            1 <= n <= 1000,
            0 <= total <= 999 * n,
            total + sum_of_multiples_from(n as int) == sum_of_multiples_from(1),
        decreases 1000 - n,
    {
        if n % 3 == 0 || n % 5 == 0 {
            total = total + n;
        }
        n = n + 1;
    }
    total
}

fn one_tail(cur: i64, tot: i64) -> (r: i64)
    requires
        1 <= cur <= 1000,
        0 <= tot <= 999 * cur,
    ensures
        r == tot + sum_of_multiples_from(cur as int),
    decreases 1000 - cur,
{
    if cur >= 1000 {
        tot
    } else if cur % 3 == 0 || cur % 5 == 0 {
        one_tail(cur + 1, tot + cur)
    } else {
        one_tail(cur + 1, tot)
    }
}

/// The same sum as `eu1`, computed tail-recursively.
#[allow(non_snake_case)]
pub fn euOne() -> (r: i64)
    ensures
        r == sum_of_multiples_from(1),
{
    one_tail(1, 0)
}

/// Sum of the even numbers among the Fibonacci progression that continues
/// `a, b`, keeping those strictly below `limit`.
pub open spec fn even_fib_sum(a: int, b: int, limit: int) -> int
    decreases (if b >= limit {
        0
    } else {
        2 * limit - a - b
    }) when 0 <= a && a <= b && 1 <= b
{
    if b >= limit {
        0
    } else {
        (if b % 2 == 0 {
            b
        } else {
            0
        }) + even_fib_sum(b, a + b, limit)
    }
}

/// Sum of the even Fibonacci numbers strictly below 4,000,000, computed
/// with a loop over the Fibonacci pair.
pub fn eu2() -> (total: i64)
    ensures
        total == even_fib_sum(0, 1, 4000000),
{
    let mut a: i64 = 0;
    let mut b: i64 = 1;
    let mut total: i64 = 0;
    while b < 4000000
        invariant
            0 <= a <= b,
            1 <= b <= 8000000,
            0 <= total <= 2 * a + b,
            total + even_fib_sum(a as int, b as int, 4000000) == even_fib_sum(0, 1, 4000000),
        decreases 12000000 - a - b,
    {
        if b % 2 == 0 {
            total = total + b;
        }
        b = a + b;
        a = b - a;
    }
    total
}

fn two_tail(a: i64, b: i64, total: i64) -> (r: i64)
    requires
        0 <= a <= b,
        1 <= b <= 8000001,
        0 <= total <= 2 * a + b,
    ensures
        r == total + even_fib_sum(a as int, b as int, 4000001),
    decreases (if b > 4000000 {
        0int
    } else {
        8000002 - a - b
    }),
{
    if b > 4000000 {
        total
    } else if b % 2 == 0 {
        two_tail(b, a + b, total + b)
    } else {
        two_tail(b, a + b, total)
    }
}

/// The sum of the even Fibonacci numbers up to and including 4,000,000,
/// computed tail-recursively. The bound is one above `eu2`'s; since
/// 4,000,000 is not a Fibonacci number, the two sums agree in value.
#[allow(non_snake_case)]
pub fn euTwo() -> (r: i64)
    ensures
        r == even_fib_sum(0, 1, 4000001),
{
    two_tail(0, 1, 0)
}

/// The largest prime factor of 600,851,475,143.
pub fn eu3() -> (r: u64)
    ensures
        primes::is_prime(r as int),
        primes::divides(r as int, 600851475143),
        forall|p: int| primes::is_prime(p) && primes::divides(p, 600851475143) ==> p <= r,
{
    primes::largest_prime_factor(600851475143)
}

} // verus!
