use jira_ai::text::{
    contains, ends_with, is_blank, is_whitespace, joined, number, on_one_line, parse_unsigned,
    replaced, squeeze, starts_with, take_chars, trimmed, without_leading_white, words_of,
};

#[test]
fn white_space_is_that_of_unicode() {
    for c in '\0'..=char::MAX {
        assert_eq!(is_whitespace(c), c.is_whitespace(), "{c:?}");
    }
}

#[test]
fn trimming() {
    assert_eq!(trimmed(" \u{3000}a b\n"), "a b");
    assert_eq!(trimmed("  "), "");
    assert_eq!(without_leading_white(" a "), "a ");
    assert!(is_blank(" \t\u{a0}"));
    assert!(!is_blank(" x "));
}

#[test]
fn words() {
    assert_eq!(words_of(" a  b\tc "), vec!["a", "b", "c"]);
    assert_eq!(squeeze(" a  b\tc "), "a b c");
    assert_eq!(joined(&vec!["x".into(), "y".into()], ", "), "x, y");
    assert_eq!(joined(&vec![], ", "), "");
}

#[test]
fn searching() {
    assert!(contains("日本語", "本"));
    assert!(contains("abc", ""));
    assert!(!contains("abc", "d"));
    assert!(starts_with("abc", "ab") && !starts_with("a", "ab"));
    assert!(ends_with("abc", "bc") && !ends_with("c", "bc"));
    assert_eq!(replaced("aXbX", "X", "日"), "a日b日");
    assert_eq!(replaced("aaa", "aa", "b"), "ba");
}

#[test]
fn numbers() {
    assert_eq!(number(0), "0");
    assert_eq!(number(u64::MAX), u64::MAX.to_string());
    let parse = |s: &str, max: u64| parse_unsigned(&s.chars().collect(), max);
    assert_eq!(parse("42", 100), Some(42));
    assert_eq!(parse("+42", 100), Some(42));
    assert_eq!(parse("101", 100), None);
    assert_eq!(parse("", 100), None);
    assert_eq!(parse("+", 100), None);
    assert_eq!(parse("4x", 100), None);
}

#[test]
fn cutting() {
    assert_eq!(take_chars("日本語", 2), "日本");
    assert_eq!(take_chars("日本語", 9), "日本語");
    assert_eq!(on_one_line("a\nb\r\n"), "a b\r ");
}
