use lss::text::{
    decimal_string, is_whitespace, pad_left, pad_zeros, push_spaces, same_text, trim_line,
};

#[test]
fn numbers_are_written_in_base_ten() {
    assert_eq!(decimal_string(0), "0");
    assert_eq!(decimal_string(7), "7");
    assert_eq!(decimal_string(10), "10");
    assert_eq!(decimal_string(1234567890), "1234567890");
    assert_eq!(decimal_string(u64::MAX), "18446744073709551615");
    for n in 0..2000u64 {
        assert_eq!(decimal_string(n), n.to_string());
    }
}

#[test]
fn padding_fills_on_the_left() {
    assert_eq!(pad_left("7", 2), " 7");
    assert_eq!(pad_left("17", 2), "17");
    assert_eq!(pad_left("117", 2), "117");
    assert_eq!(pad_left("", 3), "   ");
    assert_eq!(pad_left("root", 0), "root");
    assert_eq!(pad_zeros("7", 2), "07");
    assert_eq!(pad_zeros("17", 2), "17");
    assert_eq!(pad_zeros("5", 4), "0005");
}

#[test]
fn padding_counts_characters_not_bytes() {
    assert_eq!(pad_left("żółw", 6), "  żółw");
    assert_eq!(pad_left("日本語", 3), "日本語");
}

#[test]
fn spaces_are_appended() {
    let mut text = String::from("ab");
    push_spaces(&mut text, 3);
    assert_eq!(text, "ab   ");
    push_spaces(&mut text, 0);
    assert_eq!(text, "ab   ");
}

#[test]
fn white_space_is_what_unicode_says() {
    for c in [
        ' ', '\t', '\n', '\u{b}', '\u{c}', '\r', '\u{85}', '\u{a0}', '\u{1680}', '\u{2000}',
        '\u{2005}', '\u{200a}', '\u{2028}', '\u{2029}', '\u{202f}', '\u{205f}', '\u{3000}',
    ] {
        assert!(is_whitespace(c));
    }
    for c in ['a', '0', '\u{8}', '\u{e}', '\u{1b}', '\u{200b}', '\u{feff}', '\u{180e}'] {
        assert!(!is_whitespace(c));
    }
}

#[test]
fn white_space_agrees_with_the_standard_library() {
    for code in 0..0x11000u32 {
        if let Some(c) = char::from_u32(code) {
            assert_eq!(is_whitespace(c), c.is_whitespace());
        }
    }
}

#[test]
fn trimming_cuts_white_space_at_the_end_only() {
    assert_eq!(trim_line("abc"), "abc");
    assert_eq!(trim_line("abc  "), "abc");
    assert_eq!(trim_line("  abc \t\n"), "  abc");
    assert_eq!(trim_line("a b  c "), "a b  c");
    assert_eq!(trim_line("   "), "");
    assert_eq!(trim_line(""), "");
    assert_eq!(trim_line("é\u{3000}"), "é");
    assert_eq!(trim_line("a\u{200b} "), "a\u{200b}");
}

#[test]
fn trimming_agrees_with_the_standard_library() {
    for text in ["", " ", "x", "x ", " x", "x \u{a0}\u{2003}", "tab\t", "nl\n\n", "é \u{1680}"] {
        assert_eq!(trim_line(text), text.trim_end());
    }
}

#[test]
fn texts_are_compared_by_their_characters() {
    assert!(same_text("none", "none"));
    assert!(same_text("", ""));
    assert!(!same_text("none", "None"));
    assert!(!same_text("none", "non"));
}
