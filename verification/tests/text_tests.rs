use newspenguin_bot::text::{is_whitespace, parse_i64, shorten, starts_with, trim, trim_end_char};

#[test]
fn trim_removes_unicode_white_space_at_both_ends() {
    assert_eq!(trim("  \t hello world \n"), "hello world");
    assert_eq!(trim("\u{3000}가나\u{a0}"), "가나");
    assert_eq!(trim("   "), "");
    assert_eq!(trim(""), "");
    assert_eq!(trim("a b"), "a b");
}

#[test]
fn trim_is_idempotent_on_examples() {
    let once = trim(" \u{2003}x y\u{85} ");
    assert_eq!(trim(once), once);
}

#[test]
fn whitespace_matches_std() {
    for c in ['\t', '\n', '\u{b}', '\u{c}', '\r', ' ', '\u{85}', '\u{a0}', '\u{1680}', '\u{2000}', '\u{200a}', '\u{2028}', '\u{2029}', '\u{202f}', '\u{205f}', '\u{3000}', 'a', '0', '\u{200b}', '\u{feff}', '가'] {
        assert_eq!(is_whitespace(c), c.is_whitespace(), "{:?}", c);
    }
}

#[test]
fn trim_end_char_removes_every_trailing_copy() {
    assert_eq!(trim_end_char("https://mstd.example///", '/'), "https://mstd.example");
    assert_eq!(trim_end_char("///", '/'), "");
    assert_eq!(trim_end_char("a/b", '/'), "a/b");
}

#[test]
fn starts_with_checks_prefix() {
    assert!(starts_with("link:https://x", "link:"));
    assert!(starts_with("link:", "link:"));
    assert!(!starts_with("lin", "link:"));
    assert!(!starts_with("Link:x", "link:"));
    assert!(starts_with("anything", ""));
}

#[test]
fn shorten_cuts_long_text_and_marks_it() {
    let long: String = std::iter::repeat('가').take(301).collect();
    let cut = shorten(&long, 300);
    assert_eq!(cut.chars().count(), 303);
    assert!(cut.ends_with("..."));
    assert_eq!(cut.chars().take(300).collect::<String>(), long.chars().take(300).collect::<String>());
    let exact: String = std::iter::repeat('x').take(300).collect();
    assert_eq!(shorten(&exact, 300), exact);
    assert_eq!(shorten("", 300), "");
}

#[test]
fn parse_i64_follows_std() {
    for s in ["0", "42", "+42", "-42", "007", "9223372036854775807", "-9223372036854775808", "9223372036854775808", "-9223372036854775809", "", "+", "-", " 1", "1 ", "1a", "99999999999999999999999", "١"] {
        assert_eq!(parse_i64(s), s.parse::<i64>().ok(), "{:?}", s);
    }
}
