use soundfx::text::{
    chars_of, decimal_chars, find_char, parse_digits, push_chars, push_decimal, same_chars,
    scan_digits, slice_chars, starts_at, string_of,
};

fn chars(s: &str) -> Vec<char> {
    s.chars().collect()
}

#[test]
fn numerals() {
    assert_eq!(string_of(&decimal_chars(0)), "0");
    assert_eq!(string_of(&decimal_chars(10)), "10");
    assert_eq!(string_of(&decimal_chars(u128::MAX)), u128::MAX.to_string());
    let mut s = String::from("n=");
    push_decimal(&mut s, 9_007);
    push_chars(&mut s, &chars("!"));
    assert_eq!(s, "n=9007!");
    assert_eq!(chars_of("héllo"), chars("héllo"));
}

#[test]
fn reading_digits() {
    let v = chars("ab0123cd");
    assert_eq!(scan_digits(&v, 2), 6);
    assert_eq!(scan_digits(&v, 0), 0);
    assert_eq!(scan_digits(&v, 8), 8);
    assert_eq!(parse_digits(&v, 2, 6, 1000), Some(123));
    assert_eq!(parse_digits(&v, 2, 6, 122), None);
    assert_eq!(parse_digits(&v, 2, 6, 123), Some(123));
    assert_eq!(parse_digits(&v, 2, 2, 1000), None);
    assert_eq!(parse_digits(&v, 1, 6, 1000), None);
    let big = chars("18446744073709551615");
    assert_eq!(parse_digits(&big, 0, 20, u64::MAX), Some(u64::MAX));
    let bigger = chars("18446744073709551616");
    assert_eq!(parse_digits(&bigger, 0, 20, u64::MAX), None);
    assert_eq!(parse_digits(&chars("99999999999999999999999"), 0, 23, u64::MAX), None);
}

#[test]
fn finding() {
    let v = chars("12#loop#x");
    assert_eq!(find_char(&v, 0, '#'), 2);
    assert_eq!(find_char(&v, 3, '#'), 7);
    assert_eq!(find_char(&v, 8, '#'), 9);
    assert_eq!(slice_chars(&v, 3, 7), chars("loop"));
    assert!(starts_at(&v, 3, &chars("loop")) && !starts_at(&v, 4, &chars("loop")));
    assert!(starts_at(&v, 9, &chars("")) && !starts_at(&v, 10, &chars("")));
    assert!(!starts_at(&v, 7, &chars("#xy")));
    assert!(same_chars(&chars("ab"), &chars("ab")) && !same_chars(&chars("ab"), &chars("abc")));
}
