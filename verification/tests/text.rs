//! Text.

use lisa_rs::text::{
    byte_count, chars_of, comes_before, cut, decimal_of, find_in, hex_of, join, join3, same_text,
    starts_with, string_of, trimmed, white,
};

#[test]
fn white_space_is_that_of_std() {
    for n in 0..=0x10ffffu32 {
        if let Some(c) = char::from_u32(n) {
            assert_eq!(white(c), c.is_whitespace(), "{n:x}");
        }
    }
}

#[test]
fn texts_are_trimmed_as_std_trims_them() {
    for text in ["", " ", "a", " a ", "\n\ta b\u{3000}", "\u{85}x", "é ", "a\n"] {
        assert_eq!(trimmed(text), text.trim());
    }
}

#[test]
fn texts_are_compared_as_std_compares_them() {
    let texts = ["", "a", "ab", "b", "B", "é", "z", "\u{10000}", "\u{ffff}", "a b"];
    for a in texts {
        for b in texts {
            assert_eq!(comes_before(a, b), a < b);
            assert_eq!(same_text(a, b), a == b);
            assert_eq!(starts_with(a, b), a.starts_with(b));
        }
    }
}

#[test]
fn numbers_are_written() {
    for n in [0, 7, 10, 255, 1_000_000, u64::MAX] {
        assert_eq!(decimal_of(n), n.to_string());
        assert_eq!(hex_of(n, 6), format!("{n:06x}"));
    }
}

#[test]
fn texts_are_joined_and_cut() {
    assert_eq!(join("a", "é"), "aé");
    assert_eq!(join3("a", "", "c"), "ac");
    assert_eq!(byte_count("aé"), 3);
    assert_eq!(cut("aéb", 1, 3), "é");
    assert_eq!(string_of(&chars_of("hello"), 1, 3), "el");
    assert_eq!(find_in(&chars_of("abcabc"), &chars_of("ca"), 0, 6), Some(2));
    assert_eq!(find_in(&chars_of("abcabc"), &chars_of("bc"), 2, 6), Some(4));
    assert_eq!(find_in(&chars_of("abcabc"), &chars_of("bc"), 2, 5), None);
    assert_eq!(find_in(&chars_of("abc"), &chars_of(""), 3, 3), Some(3));
}
