use tuun::text::{
    contains_char, decimal_text, is_white_space_char, join_texts, replace_first_in,
    same_ignoring_ascii_case, split_text, starts_with, trim_text,
};

#[test]
fn white_space_is_that_of_unicode() {
    for code in 0..=0x10ffffu32 {
        if let Some(c) = char::from_u32(code) {
            assert_eq!(is_white_space_char(c), c.is_whitespace(), "{code:x}");
        }
    }
}

#[test]
fn splitting_keeps_empty_pieces() {
    assert_eq!(split_text("a/b//c/", '/'), vec!["a", "b", "", "c", ""]);
    assert_eq!(split_text("", '/'), vec![""]);
    assert_eq!(split_text("abc", '/'), vec!["abc"]);
    assert_eq!(split_text("/", '/'), vec!["", ""]);
}

#[test]
fn joining_undoes_splitting() {
    for s in ["", "/", "a/b", "//x//", "é/ü/"] {
        assert_eq!(join_texts(&split_text(s, '/'), "/"), s);
    }
    assert_eq!(join_texts(&vec![], ", "), "");
    assert_eq!(join_texts(&vec!["a".to_string(), "b".to_string()], ", "), "a, b");
}

#[test]
fn only_the_first_occurrence_is_replaced() {
    for (s, pattern, with) in [
        ("~/a/~", "~", "/home/x"),
        ("$HOME/$HOME", "$HOME", "/h"),
        ("none", "~", "x"),
        ("aab", "ab", ""),
        ("", "a", "b"),
    ] {
        assert_eq!(replace_first_in(s, pattern, with), s.replacen(pattern, with, 1));
    }
}

#[test]
fn trimming_takes_space_from_both_ends() {
    for s in ["", " ", "\t a b \n", "a", "\u{3000}x\u{a0}", "  x"] {
        assert_eq!(trim_text(s), s.trim());
    }
}

#[test]
fn ascii_case_is_ignored() {
    assert!(same_ignoring_ascii_case("Front COVER", "front cover"));
    assert!(!same_ignoring_ascii_case("front cover ", "front cover"));
    assert!(!same_ignoring_ascii_case("É", "é"));
    assert!(!same_ignoring_ascii_case("[", "{"));
}

#[test]
fn prefixes_and_characters_are_found() {
    assert!(starts_with("cover.jpg", "cover"));
    assert!(starts_with("cover", "cover"));
    assert!(!starts_with("cove", "cover"));
    assert!(starts_with("x", ""));
    assert!(contains_char("a,b", ','));
    assert!(!contains_char("ab", ','));
    assert!(!contains_char("", ','));
}

#[test]
fn numbers_are_written_in_decimal() {
    for n in [0, 7, 10, 99, 100, 1234567890, u64::MAX] {
        assert_eq!(decimal_text(n), n.to_string());
    }
}
