use codex_rs::text::{
    chars_of, followed_by, decimal_text, is_white_space, join_lines, replace, same_text,
    split_once, starts_with, text_between, trim,
};

#[test]
fn white_space_is_that_of_unicode() {
    for code in 0..=0x10ffffu32 {
        if let Some(c) = char::from_u32(code) {
            assert_eq!(is_white_space(c), c.is_whitespace());
        }
    }
}

#[test]
fn trimming_agrees_with_str_trim() {
    for text in ["", " ", "a", "  a b\t\r\n", "\u{3000}x\u{a0}", "\u{200b}x", "x \n y"] {
        assert_eq!(trim(text), text.trim());
    }
}

#[test]
fn replacing_agrees_with_str_replace() {
    for (text, pattern, by) in [
        ("", "ab", "x"),
        ("ab", "ab", ""),
        ("aab", "ab", "ab"),
        ("aaaa", "aa", "b"),
        ("aaaaa", "aa", "b"),
        ("x%%MESSAGE%%y%%MESSAGE%%", "%%MESSAGE%%", "<%%MESSAGE%%>"),
        ("%%%MESSAGE%%", "%%MESSAGE%%", "m"),
        ("a", "ab", "x"),
    ] {
        assert_eq!(replace(text, pattern, by), text.replace(pattern, by));
    }
}

#[test]
fn splitting_agrees_with_str_split_once() {
    for text in ["", "?", "a", "a?b", "a?b?c", "?b", "ü?é"] {
        let expected = text
            .split_once('?')
            .map(|(before, after)| (before.to_string(), after.to_string()));
        assert_eq!(split_once(text, '?'), expected);
    }
}

#[test]
fn numbers_are_written_in_decimal() {
    assert_eq!(decimal_text(0), "0");
    assert_eq!(decimal_text(7), "7");
    assert_eq!(decimal_text(10), "10");
    assert_eq!(decimal_text(1455), "1455");
    assert_eq!(decimal_text(65535), "65535");
    assert_eq!(decimal_text(u64::MAX), "18446744073709551615");
}

#[test]
fn lines_are_joined_with_newlines() {
    assert_eq!(join_lines(&vec![]), "");
    assert_eq!(join_lines(&vec!["a".to_string()]), "a");
    assert_eq!(
        join_lines(&vec!["a".to_string(), "".to_string(), "b".to_string()]),
        "a\n\nb"
    );
}

#[test]
fn texts_are_compared_and_cut_by_characters() {
    assert!(same_text("é", "é"));
    assert!(!same_text("a", "ab"));
    assert!(starts_with("https://x", "https://"));
    assert!(!starts_with("http:/", "http://"));
    assert!(starts_with("a", ""));
    let chars = chars_of("aéb");
    assert_eq!(chars, vec!['a', 'é', 'b']);
    assert_eq!(text_between(&chars, 1, 3), "éb");
    assert_eq!(followed_by("a", "é"), "aé");
}
