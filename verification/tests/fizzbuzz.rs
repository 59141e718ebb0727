use worker_pipeline::fizzbuzz::{div_five, div_three, fizzbuzz_word, FizzBuzzWord};

#[test]
fn test_div_three_with_bad_value() {
    if div_three(5) {
        panic!("Failed! 5 is not divisble by 3");
    }
}

#[test]
fn test_div_three_with_good_value() {
    assert!(div_three(6))
}

#[test]
fn test_div_five_with_bad_value() {
    assert!(!div_five(13))
}

#[test]
fn test_div_five_with_good_value() {
    assert!(div_five(15))
}

#[test]
fn word_for_multiple_of_both() {
    assert_eq!(fizzbuzz_word(15), FizzBuzzWord::FizzBuzz);
    assert_eq!(fizzbuzz_word(0), FizzBuzzWord::FizzBuzz);
}

#[test]
fn word_for_multiple_of_three_only() {
    assert_eq!(fizzbuzz_word(9), FizzBuzzWord::Fizz);
}

#[test]
fn word_for_multiple_of_five_only() {
    assert_eq!(fizzbuzz_word(20), FizzBuzzWord::Buzz);
}

#[test]
fn word_for_plain_number() {
    assert_eq!(fizzbuzz_word(7), FizzBuzzWord::Number(7));
}

#[test]
fn words_for_first_fifteen() {
    let expected = [
        FizzBuzzWord::Number(1),
        FizzBuzzWord::Number(2),
        FizzBuzzWord::Fizz,
        FizzBuzzWord::Number(4),
        FizzBuzzWord::Buzz,
        FizzBuzzWord::Fizz,
        FizzBuzzWord::Number(7),
        FizzBuzzWord::Number(8),
        FizzBuzzWord::Fizz,
        FizzBuzzWord::Buzz,
        FizzBuzzWord::Number(11),
        FizzBuzzWord::Fizz,
        FizzBuzzWord::Number(13),
        FizzBuzzWord::Number(14),
        FizzBuzzWord::FizzBuzz,
    ];
    for (k, want) in expected.iter().enumerate() {
        assert_eq!(fizzbuzz_word(k as i64 + 1), *want);
    }
}
