use hutt_downloader::text::{
    equal, is_whitespace, join, replace, split, split_whitespace, starts_with, to_chars,
    to_decimal, to_decimal_unsigned, trim,
};

#[test]
fn whitespace_is_unicode_white_space() {
    for code in 0u32..=0x10FFFF {
        if let Some(c) = char::from_u32(code) {
            assert_eq!(is_whitespace(c), c.is_whitespace(), "U+{code:04X}");
        }
    }
}

#[test]
fn chars_round_trip() {
    assert_eq!(to_chars("héllo"), vec!['h', 'é', 'l', 'l', 'o']);
    assert_eq!(to_chars(""), Vec::<char>::new());
}

#[test]
fn split_whitespace_like_std() {
    for text in [
        "",
        " ",
        "one",
        "  one  ",
        "one two",
        "one\ttwo\nthree",
        " a  b   c ",
        "a\u{a0}b\u{2003}c",
        "Hello :) :( <3 >.>",
    ] {
        let expected: Vec<String> = text.split_whitespace().map(str::to_owned).collect();
        assert_eq!(split_whitespace(text), expected, "{text:?}");
    }
}

#[test]
fn split_at_separator_like_std() {
    for text in ["", "/", "a", "a/b", "a//b", "/a/", "a/b/c/"] {
        let expected: Vec<String> = text.split('/').map(str::to_owned).collect();
        assert_eq!(split(text, '/'), expected, "{text:?}");
    }
    assert_eq!(split("a/b", '/'), vec!["a".to_string(), "b".to_string()]);
    assert_eq!(split("", '/'), vec!["".to_string()]);
}

#[test]
fn trim_like_std() {
    for text in ["", " ", "a", " a", "a ", "  a b  ", "\t\na\u{3000}", "\u{a0}"] {
        assert_eq!(trim(text), text.trim(), "{text:?}");
    }
    assert_eq!(trim("  a b  "), "a b");
}

#[test]
fn replace_like_std() {
    for (text, from, to) in [
        ("", "a", "b"),
        ("aaa", "a", "b"),
        ("aaa", "aa", "b"),
        ("abcabc", "bc", ""),
        ("{x}{x}", "{x}", "yy"),
        ("abc", "abcd", "z"),
        ("ab", "b", "bb"),
        ("éaé", "a", "é"),
    ] {
        assert_eq!(replace(text, from, to), text.replace(from, to), "{text:?}");
    }
    assert_eq!(replace("aaa", "aa", "b"), "ba");
    // An empty pattern occurs nowhere.
    assert_eq!(replace("abc", "", "x"), "abc");
}

#[test]
fn starts_with_and_equal() {
    assert!(starts_with("http://x", "http"));
    assert!(starts_with("http", "http"));
    assert!(!starts_with("htt", "http"));
    assert!(starts_with("anything", ""));
    assert!(!starts_with("", "a"));
    assert!(equal("abc", "abc"));
    assert!(!equal("abc", "abd"));
    assert!(!equal("abc", "ab"));
    assert!(equal("", ""));
}

#[test]
fn join_like_std() {
    let parts = |items: &[&str]| -> Vec<String> { items.iter().map(|s| s.to_string()).collect() };
    assert_eq!(join(&parts(&[]), " "), "");
    assert_eq!(join(&parts(&["a"]), " "), "a");
    assert_eq!(join(&parts(&["a", "b", "c"]), " "), "a b c");
    assert_eq!(join(&parts(&["", ""]), ", "), ", ");
}

#[test]
fn decimal_like_std() {
    for n in [0i64, 1, 9, 10, 11, 99, 100, 543321, -1, -10, -543321, i64::MAX, i64::MIN] {
        assert_eq!(to_decimal(n), n.to_string());
    }
    for n in [0u64, 7, 10, 18446744073709551615] {
        assert_eq!(to_decimal_unsigned(n), n.to_string());
    }
    assert_eq!(to_decimal(-120), "-120");
}
