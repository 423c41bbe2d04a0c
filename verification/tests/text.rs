use stripe_mcp_server::text::{has_prefix, text_before, write_decimal, write_integer};

#[test]
fn integers_are_written_in_decimal() {
    assert_eq!(write_decimal(0), "0");
    assert_eq!(write_decimal(9), "9");
    assert_eq!(write_decimal(10), "10");
    assert_eq!(write_decimal(1005), "1005");
    assert_eq!(write_decimal(u64::MAX), "18446744073709551615");
    assert_eq!(write_integer(-1), "-1");
    assert_eq!(write_integer(i64::MIN), "-9223372036854775808");
    assert_eq!(write_integer(i64::MAX), "9223372036854775807");
}

#[test]
fn strings_are_ordered_by_code_point() {
    let words = ["", "a", "aa", "ab", "b", "z\u{e9}", "\u{e9}", "\u{ffff}", "\u{10000}"];
    for (i, a) in words.iter().enumerate() {
        for (j, b) in words.iter().enumerate() {
            assert_eq!(text_before(a, b), i < j);
            assert_eq!(text_before(a, b), a < b);
        }
    }
}

#[test]
fn prefixes_are_found() {
    assert!(has_prefix("sk_test", "sk_"));
    assert!(has_prefix("sk_", "sk_"));
    assert!(has_prefix("x", ""));
    assert!(!has_prefix("sk", "sk_"));
    assert!(!has_prefix("", "/"));
    assert!(!has_prefix("rk_", "sk_"));
}
