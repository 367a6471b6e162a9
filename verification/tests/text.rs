//! Texts and their order.

use pgdump::order::text_at_most;
use pgdump::text::{
    append_decimal, append_sql_literal, contains_crlf, normalize_line_endings, same_text,
    same_text_ignoring_ascii_case, split_list, starts_with, white_space,
};

#[test]
fn lists_are_split_at_commas() {
    assert_eq!(split_list("a, b ,c"), ["a", "b", "c"]);
    assert_eq!(split_list(" a b ,, ,\t\n,c\u{3000}"), ["a b", "c"]);
    assert!(split_list("").is_empty());
    assert!(split_list(" , ").is_empty());
}

#[test]
fn white_space_is_that_of_unicode() {
    for code in 0..=0x10ffff_u32 {
        if let Some(c) = char::from_u32(code) {
            assert_eq!(white_space(c), c.is_whitespace());
        }
    }
}

#[test]
fn line_endings_become_single() {
    assert_eq!(normalize_line_endings("a\r\nb\rc\n\r\n"), "a\nb\rc\n\n");
    assert_eq!(normalize_line_endings("\r\r\n"), "\r\n");
    assert_eq!(normalize_line_endings("plain"), "plain");
    assert!(contains_crlf("x\r\n"));
    assert!(!contains_crlf("\n\r"));
    assert!(!contains_crlf(""));
    for text in ["", "\r", "\r\n", "a\r\n\r\nb", "\r\r\n\n", "\n\r\n\r"] {
        assert_eq!(normalize_line_endings(text), text.replace("\r\n", "\n"));
        assert_eq!(contains_crlf(text), text.contains("\r\n"));
    }
}

#[test]
fn normalizing_twice_changes_nothing_more() {
    let once = normalize_line_endings("a\r\nb\r\n");
    assert!(!contains_crlf(&once));
    assert_eq!(normalize_line_endings(&once), once);
}

#[test]
fn literals_double_their_quotes() {
    let mut out = String::from("= ");
    append_sql_literal(&mut out, "a'b''");
    assert_eq!(out, "= 'a''b'''''");
}

#[test]
fn numbers_are_written_in_decimal() {
    for n in [0, 7, 10, 99, 100, 1234567890, u64::MAX] {
        let mut out = String::from("n=");
        append_decimal(&mut out, n);
        assert_eq!(out, format!("n={n}"));
    }
}

#[test]
fn texts_are_compared() {
    assert!(same_text("abc", "abc"));
    assert!(!same_text("abc", "abd"));
    assert!(!same_text("abc", "ab"));
    assert!(same_text_ignoring_ascii_case("NoNe", "none"));
    assert!(!same_text_ignoring_ascii_case("\u{c4}", "\u{e4}"));
    assert!(!same_text_ignoring_ascii_case("none", "nones"));
    assert!(starts_with("security_invoker=true", "security_invoker="));
    assert!(starts_with("x", ""));
    assert!(!starts_with("x", "xy"));
}

#[test]
fn alphabetical_order_is_that_of_strings() {
    let texts = ["", "a", "aa", "ab", "b", "\u{e9}", "\u{ffff}", "\u{10000}", "Z"];
    for x in texts {
        for y in texts {
            assert_eq!(text_at_most(x, y), x <= y);
        }
    }
}
