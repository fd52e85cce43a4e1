//! The cursor and the text helpers, exercised directly.

use textcmd::cursor::Cursor;
use textcmd::text::all_digits_str;
use textcmd::text::str_eq;
use textcmd::text::trim_str;

#[test]
fn peeking_does_not_advance() {
    let cur = Cursor::new("hello world");
    assert_eq!(cur.peek_for(5), "hello");
    assert_eq!(cur.peek_for(50), "hello world");
    assert_eq!(cur.peek_token(), "hello");
    assert_eq!(cur.remainder(), "hello world");
}

#[test]
fn skip_and_advance() {
    let mut cur = Cursor::new("   abc def");
    cur.skip_ws();
    assert_eq!(cur.remainder(), "abc def");
    cur.advance(3);
    assert_eq!(cur.remainder(), " def");
    cur.skip_ws();
    assert_eq!(cur.remainder(), "def");
}

#[test]
fn literal_match_and_backtrack() {
    let mut cur = Cursor::new("abcdef");
    let saved = cur.position();
    assert!(!cur.match_literal("abd"));
    assert_eq!(cur.remainder(), "abcdef");
    assert!(cur.match_literal("abc"));
    assert_eq!(cur.remainder(), "def");
    cur.restore(saved);
    assert_eq!(cur.remainder(), "abcdef");
}

#[test]
fn mention_tag_extraction() {
    let mut cur = Cursor::new("<@123> rest");
    assert_eq!(cur.extract_mention(), Some("123"));
    assert_eq!(cur.remainder(), " rest");

    let mut marker = Cursor::new("<@!9>x");
    assert_eq!(marker.extract_mention(), Some("9"));
    assert_eq!(marker.remainder(), "x");

    let mut unclosed = Cursor::new("<@123 rest");
    assert_eq!(unclosed.extract_mention(), None);
    assert_eq!(unclosed.remainder(), "<@123 rest");

    let mut plain = Cursor::new("no tag");
    assert_eq!(plain.extract_mention(), None);
    assert_eq!(plain.remainder(), "no tag");
}

#[test]
fn unicode_offsets_count_characters() {
    let mut cur = Cursor::new("\u{e9}\u{e9} x");
    assert_eq!(cur.peek_for(2), "\u{e9}\u{e9}");
    cur.advance(2);
    cur.skip_ws();
    assert_eq!(cur.remainder(), "x");
}

#[test]
fn trimming_and_classes() {
    assert_eq!(trim_str("  a b  "), "a b");
    assert_eq!(trim_str("\u{3000}a\u{3000}"), "a");
    assert_eq!(trim_str("   "), "");
    assert_eq!(trim_str(""), "");
    assert_eq!(trim_str("x"), "x");
    assert!(str_eq("abc", "abc"));
    assert!(!str_eq("abc", "abd"));
    assert!(!str_eq("abc", "ab"));
    assert!(all_digits_str("0123456789"));
    assert!(all_digits_str(""));
    assert!(!all_digits_str("12a"));
}
