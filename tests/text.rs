use knurling::text::{find_sep, same_text, starts_with, strip_newline};

#[test]
fn prefixes() {
    assert!(starts_with("Title: x", "Title"));
    assert!(starts_with("abc", ""));
    assert!(!starts_with("Tit", "Title"));
    assert!(!starts_with("title", "Title"));
}

#[test]
fn same_texts() {
    assert!(same_text("sep", "sep"));
    assert!(!same_text("sep", "separator"));
    assert!(!same_text("", "x"));
}

#[test]
fn first_separator() {
    assert_eq!(find_sep("Artist: A: B"), Some(6));
    assert_eq!(find_sep("Artist:A"), None);
    assert_eq!(find_sep(": "), Some(0));
    assert_eq!(find_sep(""), None);
}

#[test]
fn one_trailing_line_feed_is_stripped() {
    assert_eq!(strip_newline("hello\n"), "hello");
    assert_eq!(strip_newline("hello"), "hello");
    assert_eq!(strip_newline("a\n\n"), "a\n");
    assert_eq!(strip_newline(""), "");
}
