//! Fizz-buzz: divisibility tests and the word the game says for each
//! number. Printing the words stays with the caller.

use vstd::prelude::*;

verus! {

/// True when `num` is divisible by 3.
pub fn div_three(num: i64) -> (r: bool)
    requires
        num >= 0,
    ensures
        r == (num % 3 == 0),
{
    num % 3 == 0
}

/// True when `num` is divisible by 5.
pub fn div_five(num: i64) -> (r: bool)
    requires
        num >= 0,
    ensures
        r == (num % 5 == 0),
{
    num % 5 == 0
}

/// What the fizz-buzz game says for one number.
#[derive(PartialEq, Eq, Structural, Debug)]
pub enum FizzBuzzWord {
    FizzBuzz,
    Fizz,
    Buzz,
    Number(i64),
}

/// The word said for `num`: `FizzBuzz` when both 3 and 5 divide it, `Fizz`
/// when only 3 does, `Buzz` when only 5 does, and the number itself
/// otherwise.
pub open spec fn word_of(num: int) -> FizzBuzzWord {
    if num % 3 == 0 && num % 5 == 0 {
        FizzBuzzWord::FizzBuzz
    } else if num % 3 == 0 {
        FizzBuzzWord::Fizz
    } else if num % 5 == 0 {
        FizzBuzzWord::Buzz
    } else {
        FizzBuzzWord::Number(num as i64)
    }
}

/// The word the fizz-buzz game says for `num`.
pub fn fizzbuzz_word(num: i64) -> (w: FizzBuzzWord)
    requires
        num >= 0,
    ensures
        w == word_of(num as int),
{
    if div_three(num) && div_five(num) {
        FizzBuzzWord::FizzBuzz
    } else if div_three(num) {
        FizzBuzzWord::Fizz
    } else if div_five(num) {
        FizzBuzzWord::Buzz
    } else {
        FizzBuzzWord::Number(num)
    }
}

} // verus!
