use pms::text::{trim, u32_to_string};

#[test]
fn trim_plain_spaces() {
    assert_eq!(trim("  Alpha  "), "Alpha");
}

#[test]
fn trim_no_whitespace() {
    assert_eq!(trim("Alpha"), "Alpha");
}

#[test]
fn trim_empty() {
    assert_eq!(trim(""), "");
}

#[test]
fn trim_all_whitespace() {
    assert_eq!(trim(" \t\r\n "), "");
}

#[test]
fn trim_unicode_whitespace() {
    assert_eq!(trim("\u{00A0}\u{2003}x\u{3000}"), "x");
}

#[test]
fn trim_keeps_inner_whitespace() {
    assert_eq!(trim("  a b  "), "a b");
}

#[test]
fn decimal_zero() {
    assert_eq!(u32_to_string(0), "0");
}

#[test]
fn decimal_single_digit() {
    assert_eq!(u32_to_string(7), "7");
}

#[test]
fn decimal_two_digits() {
    assert_eq!(u32_to_string(10), "10");
}

#[test]
fn decimal_many_digits() {
    assert_eq!(u32_to_string(12345), "12345");
}

#[test]
fn decimal_max() {
    assert_eq!(u32_to_string(u32::MAX), "4294967295");
}
