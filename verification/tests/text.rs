//! Text operations.

use screenshare::text::{
    all_digits, decimal_text, eq_ignore_ascii_case, same, starts_with, trim, trim_end_matches,
    trim_start_matches,
};

#[test]
fn trimming_agrees_with_the_standard_library() {
    let samples = [
        "", " ", "a", " a ", "\t\n\u{b}\u{c}\r a b \u{85}\u{a0}", "\u{1680}x\u{2000}\u{200a}",
        "\u{2028}\u{2029}x\u{202f}\u{205f}\u{3000}", "\u{200b}x\u{200b}", "\u{1c}x\u{feff}",
        "\u{180e}x",
    ];
    for s in samples {
        assert_eq!(trim(s), s.trim(), "{s:?}");
    }
    for n in 0..=0x10_ffffu32 {
        if let Some(c) = char::from_u32(n) {
            if c.is_whitespace() {
                let s = format!("{c}x{c}");
                assert_eq!(trim(&s), "x", "U+{n:04X}");
            }
        }
    }
    for n in (0..0x3100).chain([0xfeff, 0x1_0000]) {
        if let Some(c) = char::from_u32(n) {
            let s = c.to_string();
            assert_eq!(trim(&s), s.trim(), "U+{n:04X}");
        }
    }
}

#[test]
fn prefixes_and_suffixes() {
    assert!(starts_with("https://x", "https://"));
    assert!(!starts_with("http", "https://"));
    assert!(starts_with("x", ""));
    assert_eq!(trim_start_matches("aaab", "a"), "b");
    assert_eq!(trim_start_matches("ababa", "ab"), "a");
    assert_eq!(trim_start_matches("x", ""), "x");
    assert_eq!(trim_end_matches("x//", '/'), "x");
    assert!(same("é", "é"));
    assert!(!same("é", "e"));
}

#[test]
fn case_is_ignored_for_ascii_only() {
    assert!(eq_ignore_ascii_case("aZ@[", "Az@["));
    assert!(!eq_ignore_ascii_case("@", "`"));
    assert!(!eq_ignore_ascii_case("[", "{"));
    assert!(!eq_ignore_ascii_case("É", "é"));
    assert!(!eq_ignore_ascii_case("a", "aa"));
}

#[test]
fn digits() {
    assert!(all_digits(""));
    assert!(all_digits("0123456789"));
    assert!(!all_digits("12/"));
    assert!(!all_digits("12:"));
    assert!(!all_digits("１２"));
}

#[test]
fn decimal_numbers() {
    for n in [0, 7, 9, 10, 99, 100, 65_536, 12_345_678_901, u64::MAX] {
        assert_eq!(decimal_text(n), n.to_string());
    }
}
