use mafold_cli::text::{
    byte_len, characters, is_white_space, lower, replace_first, same, same_ignoring_case,
    strip_leading, trim,
};

#[test]
fn texts_are_compared_as_a_whole() {
    assert!(same("", ""));
    assert!(same("grüß 🦀", "grüß 🦀"));
    assert!(!same("a", "b"));
    assert!(!same("a", "ab"));
    assert!(!same("é", "e\u{301}"));
}

#[test]
fn characters_are_not_bytes() {
    assert_eq!(characters("aé🦀"), vec!['a', 'é', '🦀']);
    assert_eq!(byte_len("aé🦀"), 7);
    assert_eq!(byte_len(""), 0);
}

#[test]
fn white_space_is_that_of_unicode() {
    for code in 0..=0x10ffffu32 {
        if let Some(c) = char::from_u32(code) {
            assert_eq!(is_white_space(c), c.is_whitespace(), "{code:x}");
        }
    }
}

#[test]
fn trimming_takes_both_ends() {
    for s in ["", " ", "\t\n\u{a0}", "a", " a b ", "\u{3000}x\u{85}", "\u{200b}x\u{200b}", "x\u{180e}"] {
        assert_eq!(trim(s), s.trim());
    }
}

#[test]
fn leading_characters_are_stripped() {
    for s in ["", "@", "@@a@", "a@", "@é", "vv1"] {
        assert_eq!(strip_leading(s, '@'), s.trim_start_matches('@'));
        assert_eq!(strip_leading(s, 'v'), s.trim_start_matches('v'));
    }
}

#[test]
fn case_is_ignored_for_ascii_only() {
    for (a, b) in [
        ("Alice", "aLICE"),
        ("alice", "alicf"),
        ("É", "é"),
        ("K", "\u{212a}"),
        ("@[`{", "`{@["),
        ("a", "ab"),
        ("", ""),
    ] {
        assert_eq!(same_ignoring_case(a, b), a.eq_ignore_ascii_case(b));
    }
    for code in 0..=0x2fffu32 {
        if let Some(c) = char::from_u32(code) {
            assert_eq!(lower(c), c.to_ascii_lowercase());
        }
    }
}

#[test]
fn only_the_first_occurrence_is_replaced() {
    for (s, pat, to) in [
        ("https://a", "https://", "wss://"),
        ("aaa", "a", "bb"),
        ("abcabc", "bc", ""),
        ("ab", "abc", "x"),
        ("aab", "ab", "é"),
        ("none", "x", "y"),
        ("abc", "", "-"),
    ] {
        assert_eq!(replace_first(s, pat, to), s.replacen(pat, to, 1));
    }
}
