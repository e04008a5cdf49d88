use rusty_forest::number::{
    parse_i64, parse_u64, push_decimal, push_signed, push_two_digits, IntError,
};

fn chars(text: &str) -> Vec<char> {
    text.chars().collect()
}

const TEXTS: [&str; 44] = [
    "",
    "0",
    "7",
    "007",
    "42",
    "+42",
    "-42",
    "+",
    "-",
    "++1",
    "--1",
    "+-1",
    "1+",
    " 1",
    "1 ",
    "1.5",
    "1e3",
    "0x10",
    "abc",
    "12a",
    "a12",
    "\u{661}\u{662}",
    "18446744073709551615",
    "18446744073709551616",
    "+18446744073709551615",
    "28446744073709551615",
    "99999999999999999999",
    "99999999999999999999x",
    "9x9999999999999999999",
    "000000000000000000000000000001",
    "9223372036854775807",
    "9223372036854775808",
    "-9223372036854775808",
    "-9223372036854775809",
    "-99999999999999999999",
    "-99999999999999999999x",
    "-0",
    "+0",
    "-000",
    "1234567890123456",
    "12345678901234567",
    "123456789012345678x",
    "-1234567890123456x",
    "1_000",
];

#[test]
fn parse_u64_agrees_with_the_standard_library() {
    let mut good = 0;
    for text in TEXTS {
        let ours = parse_u64(&chars(text));
        let theirs = text.parse::<u64>();
        match (ours, theirs) {
            (Ok(a), Ok(b)) => {
                assert_eq!(a, b, "{:?}", text);
                good += 1;
            }
            (Err(a), Err(b)) => assert_eq!(a.message(), b.to_string(), "{:?}", text),
            (a, b) => panic!("{:?}: {:?} and {:?}", text, a, b),
        }
    }
    assert_eq!(good, 13);
}

#[test]
fn parse_i64_agrees_with_the_standard_library() {
    let mut good = 0;
    for text in TEXTS {
        let ours = parse_i64(&chars(text));
        let theirs = text.parse::<i64>();
        match (ours, theirs) {
            (Ok(a), Ok(b)) => {
                assert_eq!(a, b, "{:?}", text);
                good += 1;
            }
            (Err(a), Err(b)) => assert_eq!(a.message(), b.to_string(), "{:?}", text),
            (a, b) => panic!("{:?}: {:?} and {:?}", text, a, b),
        }
    }
    assert_eq!(good, 14);
}

#[test]
fn every_error_has_its_input() {
    assert_eq!(parse_u64(&chars("")), Err(IntError::Empty));
    assert_eq!(parse_u64(&chars("x")), Err(IntError::InvalidDigit));
    assert_eq!(parse_u64(&chars("-1")), Err(IntError::InvalidDigit));
    assert_eq!(parse_u64(&chars("18446744073709551616")), Err(IntError::PosOverflow));
    assert_eq!(parse_i64(&chars("9223372036854775808")), Err(IntError::PosOverflow));
    assert_eq!(parse_i64(&chars("-9223372036854775809")), Err(IntError::NegOverflow));
    assert_eq!(parse_u64(&chars("18446744073709551615")), Ok(u64::MAX));
    assert_eq!(parse_i64(&chars("-9223372036854775808")), Ok(i64::MIN));
    assert_eq!(parse_i64(&chars("9223372036854775807")), Ok(i64::MAX));
}

#[test]
fn the_errors_say_what_is_wrong() {
    assert_eq!(IntError::Empty.message(), "cannot parse integer from empty string");
    assert_eq!(IntError::InvalidDigit.message(), "invalid digit found in string");
    assert_eq!(IntError::PosOverflow.message(), "number too large to fit in target type");
    assert_eq!(IntError::NegOverflow.message(), "number too small to fit in target type");
}

#[test]
fn numbers_are_written_in_decimal() {
    for n in [0u64, 1, 9, 10, 11, 99, 100, 101, 255, 1000, 65535, 1234567890, u64::MAX - 1, u64::MAX] {
        let mut text = "n=".to_string();
        push_decimal(&mut text, n);
        assert_eq!(text, format!("n={}", n));
    }
}

#[test]
fn negative_numbers_are_written_with_their_sign() {
    for n in [0i64, 1, -1, 10, -10, 1600000000, -1600000000, i64::MAX, i64::MIN, i64::MIN + 1] {
        let mut text = String::new();
        push_signed(&mut text, n);
        assert_eq!(text, format!("{}", n));
    }
}

#[test]
fn two_digits_are_at_least_two_digits() {
    for n in [0u64, 1, 9, 10, 59, 99, 100, 12345] {
        let mut text = String::new();
        push_two_digits(&mut text, n);
        assert_eq!(text, format!("{:02}", n));
    }
}

#[test]
fn what_is_written_is_read_back() {
    for n in [0u64, 5, 10, 907, 18446744073709551615] {
        let mut text = String::new();
        push_decimal(&mut text, n);
        assert_eq!(parse_u64(&chars(&text)), Ok(n));
    }
    for n in [0i64, -5, 10, -907, i64::MIN, i64::MAX] {
        let mut text = String::new();
        push_signed(&mut text, n);
        assert_eq!(parse_i64(&chars(&text)), Ok(n));
    }
}
