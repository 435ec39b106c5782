use ukiyo::text::{decode_string_literal, int_to_text, parse_i32};

#[test]
fn parses_signed_integers() {
    assert_eq!(parse_i32("0"), Some(0));
    assert_eq!(parse_i32("42"), Some(42));
    assert_eq!(parse_i32("+5"), Some(5));
    assert_eq!(parse_i32("-17"), Some(-17));
    assert_eq!(parse_i32("007"), Some(7));
    assert_eq!(parse_i32("2147483647"), Some(2147483647));
    assert_eq!(parse_i32("-2147483648"), Some(-2147483648));
}

#[test]
fn rejects_malformed_integers() {
    assert_eq!(parse_i32(""), None);
    assert_eq!(parse_i32("-"), None);
    assert_eq!(parse_i32("+"), None);
    assert_eq!(parse_i32("12a"), None);
    assert_eq!(parse_i32(" 1"), None);
    assert_eq!(parse_i32("2147483648"), None);
    assert_eq!(parse_i32("-2147483649"), None);
    assert_eq!(parse_i32("99999999999999999999"), None);
}

#[test]
fn writes_decimal_text() {
    assert_eq!(int_to_text(0), "0");
    assert_eq!(int_to_text(5), "5");
    assert_eq!(int_to_text(1203), "1203");
    assert_eq!(int_to_text(-45), "-45");
    assert_eq!(int_to_text(2147483647), "2147483647");
    assert_eq!(int_to_text(-2147483648), "-2147483648");
}

#[test]
fn decodes_escapes() {
    assert_eq!(decode_string_literal("\"plain\""), "plain");
    assert_eq!(decode_string_literal("\"\""), "");
    assert_eq!(decode_string_literal("\"\\t\\b\\n\\r\\f\\'\\\\\\0\""), "\t\u{8}\n\r\u{c}'\\\0");
    assert_eq!(decode_string_literal("\"\\q\\\"\""), "q\"");
    assert_eq!(decode_string_literal("\"caf\u{e9}\""), "caf\u{e9}");
}

#[test]
fn escape_may_take_the_closing_quote() {
    assert_eq!(decode_string_literal("\"a\\\""), "a\"");
}
