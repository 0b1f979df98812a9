use zenoh_plugin_dds::number::{parse_u32, parse_u64, write_i32, write_u64};
use zenoh_plugin_dds::text::{contains, ends_with, find, join, same, skip, starts_with, take};

#[test]
fn text_is_searched_from_the_start() {
    assert_eq!(find("abcabc", "ca"), Some(2));
    assert_eq!(find("abcabc", "abc"), Some(0));
    assert_eq!(find("abc", "abcd"), None);
    assert_eq!(find("abc", ""), Some(0));
    assert_eq!(find("h\u{e9}llo", "l"), Some(2));
    assert!(!contains("abc", "x"));
    assert!(contains("abc", "bc"));
}

#[test]
fn text_is_cut_and_joined() {
    assert_eq!(skip("h\u{e9}llo", 2), "llo");
    assert_eq!(take("h\u{e9}llo", 2), "h\u{e9}");
    assert_eq!(join(&vec![], "|"), "");
    assert_eq!(join(&vec!["a".to_string(), "b".to_string(), "c".to_string()], "|"), "a|b|c");
    assert!(starts_with("abc", "ab") && !starts_with("ab", "abc"));
    assert!(ends_with("abc", "bc") && !ends_with("abc", "ab"));
    assert!(same("abc", "abc") && !same("abc", "abd") && !same("abc", "abcd"));
}

#[test]
fn numbers_are_read_and_written() {
    assert_eq!(parse_u32("42"), Some(42));
    assert_eq!(parse_u32("+7"), Some(7));
    assert_eq!(parse_u32("4294967295"), Some(u32::MAX));
    assert_eq!(parse_u32("4294967296"), None);
    assert_eq!(parse_u32(""), None);
    assert_eq!(parse_u32("+"), None);
    assert_eq!(parse_u32("-1"), None);
    assert_eq!(parse_u32("1x"), None);
    assert_eq!(parse_u64("18446744073709551615"), Some(u64::MAX));
    assert_eq!(parse_u64("18446744073709551616"), None);
    assert_eq!(write_u64(0), "0");
    assert_eq!(write_u64(u64::MAX), "18446744073709551615");
    assert_eq!(write_i32(-42), "-42");
    assert_eq!(write_i32(i32::MIN), "-2147483648");
    assert_eq!(parse_u64(&write_u64(9070605)), Some(9070605));
}
