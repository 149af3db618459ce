use ml_parser::text::{
    bool_to_string, decode_quot, i32_to_string, i64_to_string, parse_i32, parse_i64, parse_u32,
    split, str_after_last, str_contains, str_ends_with, str_eq, str_find, str_starts_with, trim,
    u64_to_string,
};

#[test]
fn parses_signed_decimals() {
    assert_eq!(parse_i64("0"), Some(0));
    assert_eq!(parse_i64("-42"), Some(-42));
    assert_eq!(parse_i64("+7"), Some(7));
    assert_eq!(parse_i64("9223372036854775807"), Some(i64::MAX));
    assert_eq!(parse_i64("-9223372036854775808"), Some(i64::MIN));
    assert_eq!(parse_i64("9223372036854775808"), None);
    assert_eq!(parse_i64(""), None);
    assert_eq!(parse_i64("-"), None);
    assert_eq!(parse_i64("12x"), None);
    assert_eq!(parse_i32("2147483647"), Some(i32::MAX));
    assert_eq!(parse_i32("2147483648"), None);
    assert_eq!(parse_u32("4294967295"), Some(u32::MAX));
    assert_eq!(parse_u32("-1"), None);
}

#[test]
fn renders_decimals() {
    assert_eq!(u64_to_string(0), "0");
    assert_eq!(u64_to_string(90210), "90210");
    assert_eq!(i64_to_string(-1), "-1");
    assert_eq!(i64_to_string(i64::MIN), "-9223372036854775808");
    assert_eq!(i32_to_string(-2147483648), "-2147483648");
    assert_eq!(bool_to_string(true), "true");
    assert_eq!(bool_to_string(false), "false");
}

#[test]
fn searches_and_compares() {
    assert!(str_eq("abc", "abc"));
    assert!(!str_eq("abc", "abd"));
    assert_eq!(str_find("hello world", "o w"), Some(4));
    assert_eq!(str_find("hello", "z"), None);
    assert!(str_contains("Format:", "Format"));
    assert!(str_starts_with("@attribute a", "@attribute"));
    assert!(str_ends_with("12.5 kB", " kB"));
}

#[test]
fn trims_and_splits() {
    assert_eq!(trim("  padded\t"), "padded");
    assert_eq!(trim("   "), "");
    assert_eq!(trim("\u{00A0}spaced\u{2009}"), "spaced");
    let parts = split("a/b//c", '/');
    assert_eq!(parts, vec!["a", "b", "", "c"]);
    assert_eq!(str_after_last("https://x/entry/42", '/'), "42");
    assert_eq!(str_after_last("plain", '/'), "plain");
    assert_eq!(str_after_last("trailing/", '/'), "");
}

#[test]
fn decodes_quote_entities() {
    assert_eq!(decode_quot("{&quot;a&quot;:1}"), "{\"a\":1}");
    assert_eq!(decode_quot("none here"), "none here");
    assert_eq!(decode_quot("&quot"), "&quot");
}
