use rust_http_framework::number::{parse_usize, usize_to_string};
use rust_http_framework::search::{str_split, str_split_once};
use rust_http_framework::text::{str_eq, str_trim};

#[test]
fn split_once_parts_at_the_leftmost_occurrence() {
    assert_eq!(str_split_once("a=b=c", "="), Some(("a", "b=c")));
    assert_eq!(str_split_once("=b", "="), Some(("", "b")));
    assert_eq!(str_split_once("a=", "="), Some(("a", "")));
    assert_eq!(str_split_once("abc", "="), None);
    assert_eq!(str_split_once("", "="), None);
    assert_eq!(str_split_once("x\r\n\r\ny\r\n\r\nz", "\r\n\r\n"), Some(("x", "y\r\n\r\nz")));
    assert_eq!(str_split_once("\r\r\n", "\r\n"), Some(("\r", "")));
}

#[test]
fn split_once_counts_characters_not_bytes() {
    assert_eq!(str_split_once("é=ü", "="), Some(("é", "ü")));
    assert_eq!(str_split_once("日本=語", "="), Some(("日本", "語")));
}

#[test]
fn split_gives_every_piece() {
    assert_eq!(str_split("a/b/c", "/"), vec!["a", "b", "c"]);
    assert_eq!(str_split("", "/"), vec![""]);
    assert_eq!(str_split("/", "/"), vec!["", ""]);
    assert_eq!(str_split("/a/", "/"), vec!["", "a", ""]);
    assert_eq!(str_split("//", "/"), vec!["", "", ""]);
    assert_eq!(str_split("abc", "/"), vec!["abc"]);
    assert_eq!(str_split("a\r\nb\r\n", "\r\n"), vec!["a", "b", ""]);
    assert_eq!(str_split("aaa", "aa"), vec!["", "a"]);
}

#[test]
fn split_on_the_empty_pattern_is_one_piece() {
    assert_eq!(str_split("abc", ""), vec!["abc"]);
}

#[test]
fn trim_removes_white_space_at_both_ends() {
    assert_eq!(str_trim("  a b \t\r\n"), "a b");
    assert_eq!(str_trim("a"), "a");
    assert_eq!(str_trim(""), "");
    assert_eq!(str_trim(" \t "), "");
    assert_eq!(str_trim("\u{a0}x\u{3000}"), "x");
}

#[test]
fn texts_are_compared_by_content() {
    assert!(str_eq("abc", "abc"));
    assert!(str_eq("", ""));
    assert!(!str_eq("abc", "abd"));
    assert!(!str_eq("abc", "ab"));
    assert!(!str_eq("ab", "abc"));
}

#[test]
fn numbers_are_read() {
    assert_eq!(parse_usize("0"), Some(0));
    assert_eq!(parse_usize("10"), Some(10));
    assert_eq!(parse_usize("007"), Some(7));
    assert_eq!(parse_usize("+5"), Some(5));
    assert_eq!(parse_usize("18446744073709551615"), "18446744073709551615".parse::<usize>().ok());
}

#[test]
fn what_is_no_number_is_not_read() {
    assert_eq!(parse_usize(""), None);
    assert_eq!(parse_usize("+"), None);
    assert_eq!(parse_usize("-1"), None);
    assert_eq!(parse_usize(" 1"), None);
    assert_eq!(parse_usize("1 "), None);
    assert_eq!(parse_usize("1a"), None);
    assert_eq!(parse_usize("++1"), None);
    assert_eq!(parse_usize("1.0"), None);
    assert_eq!(parse_usize("٣"), None);
}

#[test]
fn a_number_too_large_for_the_machine_is_not_read() {
    assert_eq!(parse_usize("340282366920938463463374607431768211456"), None);
    assert_eq!(parse_usize("99999999999999999999999999"), None);
}

#[test]
fn numbers_are_written() {
    assert_eq!(usize_to_string(0), "0");
    assert_eq!(usize_to_string(7), "7");
    assert_eq!(usize_to_string(10), "10");
    assert_eq!(usize_to_string(404), "404");
    assert_eq!(usize_to_string(1234567890), "1234567890");
    assert_eq!(usize_to_string(usize::MAX), usize::MAX.to_string());
}

#[test]
fn a_written_number_is_read_back() {
    for n in [0usize, 1, 9, 10, 99, 100, 12345, usize::MAX] {
        assert_eq!(parse_usize(&usize_to_string(n)), Some(n));
    }
}
