use foundry_judge::number::{parse_i64, to_decimal};
use foundry_judge::text::trim;

#[test]
fn parse_reads_signed_decimals() {
    assert_eq!(parse_i64("10"), Some(10));
    assert_eq!(parse_i64("+10"), Some(10));
    assert_eq!(parse_i64("-10"), Some(-10));
    assert_eq!(parse_i64("0007"), Some(7));
    assert_eq!(parse_i64("9223372036854775807"), Some(i64::MAX));
    assert_eq!(parse_i64("-9223372036854775808"), Some(i64::MIN));
}

#[test]
fn parse_refuses_what_is_no_integer() {
    assert_eq!(parse_i64(""), None);
    assert_eq!(parse_i64("-"), None);
    assert_eq!(parse_i64("+"), None);
    assert_eq!(parse_i64("1 "), None);
    assert_eq!(parse_i64("1.5"), None);
    assert_eq!(parse_i64("ten"), None);
    assert_eq!(parse_i64("9223372036854775808"), None);
    assert_eq!(parse_i64("-9223372036854775809"), None);
    assert_eq!(parse_i64("100000000000000000000000000000"), None);
}

#[test]
fn parse_agrees_with_std() {
    for s in ["0", "-0", "+0", "42", "-42", "+-1", "--1", "1e3", "٣", "18446744073709551616"] {
        assert_eq!(parse_i64(s), s.parse::<i64>().ok(), "{}", s);
    }
}

#[test]
fn decimal_writes_integers() {
    assert_eq!(to_decimal(0), "0");
    assert_eq!(to_decimal(7), "7");
    assert_eq!(to_decimal(10), "10");
    assert_eq!(to_decimal(-1), "-1");
    assert_eq!(to_decimal(1234567890), "1234567890");
    assert_eq!(to_decimal(i128::MAX), i128::MAX.to_string());
    assert_eq!(to_decimal(i128::MIN), i128::MIN.to_string());
}

#[test]
fn trim_drops_white_space_at_both_ends() {
    assert_eq!(trim("  a b \t\n"), "a b");
    assert_eq!(trim(""), "");
    assert_eq!(trim(" \u{3000}\u{a0} "), "");
    assert_eq!(trim("x"), "x");
    for s in [" a ", "\u{85}b\u{2028}", "\u{200b}c", "\u{1680}d\u{205f}"] {
        assert_eq!(trim(s), s.trim(), "{:?}", s);
    }
}
