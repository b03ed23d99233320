use discord_we::text::{
    chars_of, is_control, is_invisible, is_visible, is_whitespace, parse_u64, same_text, trimmed,
};

#[test]
fn whitespace_and_control_agree_with_std_for_every_char() {
    for u in 0..=0x10FFFFu32 {
        if let Some(c) = char::from_u32(u) {
            assert_eq!(is_whitespace(c), c.is_whitespace(), "U+{u:04X}");
            assert_eq!(is_control(c), c.is_control(), "U+{u:04X}");
        }
    }
}

#[test]
fn invisible_code_points() {
    for c in ['\u{00AD}', '\u{200B}', '\u{200D}', '\u{3164}', '\u{2800}', '\u{FEFF}', '\u{E0041}', ' ', '\t', '\u{1D173}'] {
        assert!(is_invisible(c), "{c:?}");
        assert!(!is_visible(c), "{c:?}");
    }
    for c in ['W', 'e', '私', '👨', '-', '\u{2801}', '\u{1D17B}', '\u{E0080}'] {
        assert!(is_visible(c), "{c:?}");
    }
}

#[test]
fn text_helpers() {
    assert_eq!(chars_of("a私👨"), vec!['a', '私', '👨']);
    assert!(same_text("私たち", "私たち"));
    assert!(!same_text("私たち", "私た"));
    assert!(!same_text("We", "we"));
    assert_eq!(trimmed("  a b \n"), vec!['a', ' ', 'b']);
    assert_eq!(trimmed("\u{3000}x\u{00A0}"), vec!['x']);
    assert_eq!(trimmed(" \t "), Vec::<char>::new());
    assert_eq!(trimmed("\u{200B}x"), vec!['\u{200B}', 'x']);
}

#[test]
fn parsing_agrees_with_std() {
    for s in [
        "0", "7", "+7", "007", "18446744073709551615", "18446744073709551616",
        "99999999999999999999", "", "+", "-", "-1", "1a", "a1", " 1", "1 ", "++1", "+-1", "١",
        "1_000", "0x10",
    ] {
        let chars: Vec<char> = s.chars().collect();
        assert_eq!(parse_u64(&chars), s.parse::<u64>().ok(), "{s:?}");
    }
}
