use rssq::text::{
    contains_bytes, decimal_text, is_white_space, join, sorts_before, split_words, trim,
};

#[test]
fn contains_bytes_finds_a_needle_anywhere() {
    assert!(contains_bytes(b"hello world", b"hello"));
    assert!(contains_bytes(b"hello world", b"o w"));
    assert!(contains_bytes(b"hello world", b"world"));
    assert!(contains_bytes(b"hello world", b"hello world"));
    assert!(contains_bytes(b"aab", b"ab"));
}

#[test]
fn contains_bytes_rejects_what_is_not_there() {
    assert!(!contains_bytes(b"hello world", b"worlds"));
    assert!(!contains_bytes(b"hello world", b"hello world!"));
    assert!(!contains_bytes(b"abc", b"ac"));
    assert!(!contains_bytes(b"", b"a"));
}

#[test]
fn contains_bytes_finds_the_empty_needle_everywhere() {
    assert!(contains_bytes(b"abc", b""));
    assert!(contains_bytes(b"", b""));
}

#[test]
fn contains_bytes_agrees_with_the_standard_search() {
    let texts = ["", "a", "ab", "aba", "abab", "banana", "bandana"];
    for text in texts {
        for needle in texts {
            assert_eq!(
                contains_bytes(text.as_bytes(), needle.as_bytes()),
                text.contains(needle),
                "{needle:?} in {text:?}"
            );
        }
    }
}

#[test]
fn sorts_before_compares_byte_by_byte() {
    assert!(sorts_before(b"a", b"b"));
    assert!(!sorts_before(b"b", b"a"));
    assert!(sorts_before(b"", b"a"));
    assert!(!sorts_before(b"a", b""));
    assert!(sorts_before(b"ab", b"abc"));
    assert!(!sorts_before(b"abc", b"ab"));
    assert!(sorts_before(b"Zebra", b"apple"));
    assert!(!sorts_before(b"same", b"same"));
    assert!(!sorts_before(b"", b""));
}

#[test]
fn sorts_before_agrees_with_the_order_of_strings() {
    let texts = ["", "a", "A", "ab", "b", "\u{e9}", "z", "zz", "\u{4e2d}"];
    for a in texts {
        for b in texts {
            assert_eq!(sorts_before(a.as_bytes(), b.as_bytes()), a < b, "{a:?} < {b:?}");
        }
    }
}

#[test]
fn decimal_text_writes_numbers() {
    assert_eq!(decimal_text(0), "0");
    assert_eq!(decimal_text(7), "7");
    assert_eq!(decimal_text(10), "10");
    assert_eq!(decimal_text(409), "409");
    assert_eq!(decimal_text(1234567890), "1234567890");
    assert_eq!(decimal_text(usize::MAX), usize::MAX.to_string());
}

#[test]
fn join_puts_the_separator_between_the_parts() {
    let parts = |list: &[&str]| list.iter().map(|s| s.to_string()).collect::<Vec<String>>();
    assert_eq!(join(&parts(&[]), " | "), "");
    assert_eq!(join(&parts(&["one"]), " | "), "one");
    assert_eq!(join(&parts(&["one", "two"]), " | "), "one | two");
    assert_eq!(join(&parts(&["a", "", "c"]), ","), "a,,c");
    assert_eq!(join(&parts(&["a", "b"]), ""), "ab");
}

const SAMPLES: [&str; 14] = [
    "",
    " ",
    "word",
    "  word",
    "word  ",
    " two  words ",
    "\ttabs\tand\nlines\r\n",
    "\u{a0}no-break\u{a0}",
    "\u{3000}wide\u{2003}space\u{3000}",
    "\u{85}\u{1680}\u{2028}\u{2029}\u{202f}\u{205f}",
    "zero\u{200b}width is no space",
    "caf\u{e9} \u{4e2d}\u{6587}",
    "a b c d e f",
    " \u{b}\u{c} x \u{1c} ",
];

#[test]
fn white_space_is_what_the_standard_library_calls_so() {
    for code in 0..=0x10ffffu32 {
        if let Some(c) = char::from_u32(code) {
            assert_eq!(is_white_space(c), c.is_whitespace(), "U+{code:04X}");
        }
    }
}

#[test]
fn trim_takes_the_white_space_off_both_ends() {
    assert_eq!(trim("  two words \n"), "two words");
    assert_eq!(trim("\u{3000}x"), "x");
    assert_eq!(trim(" \t "), "");
    assert_eq!(trim(""), "");
    assert_eq!(trim("x"), "x");
}

#[test]
fn trim_agrees_with_the_standard_library() {
    for sample in SAMPLES {
        assert_eq!(trim(sample), sample.trim(), "{sample:?}");
    }
}

#[test]
fn split_words_gives_the_runs_between_white_space() {
    assert_eq!(split_words(" two  words "), vec!["two", "words"]);
    assert_eq!(split_words("one"), vec!["one"]);
    assert_eq!(split_words("a\tb\nc"), vec!["a", "b", "c"]);
    assert_eq!(split_words(" \n "), Vec::<String>::new());
    assert_eq!(split_words(""), Vec::<String>::new());
}

#[test]
fn split_words_agrees_with_the_standard_library() {
    for sample in SAMPLES {
        let expected: Vec<String> = sample.split_whitespace().map(|w| w.to_string()).collect();
        assert_eq!(split_words(sample), expected, "{sample:?}");
    }
}
