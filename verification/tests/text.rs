use dsh_ui::numbers::{decimal_text, parse_unsigned_up_to, signed_decimal_text};
use dsh_ui::text::{
    chars_of, first_word_of, same_text, strip_prefix, trim_start_of, trim_text, white_space,
};

#[test]
fn white_space_agrees_with_the_standard_library_on_every_character() {
    for n in 0..=0x10ffffu32 {
        if let Some(c) = char::from_u32(n) {
            assert_eq!(white_space(c), c.is_whitespace(), "{n:#x}");
        }
    }
}

#[test]
fn trimming_agrees_with_the_standard_library() {
    for s in ["", " ", "a", " a b ", "\u{3000}é\u{85}", "\t\r\n", "x\u{200b} "] {
        assert_eq!(trim_text(s), s.trim());
        assert_eq!(trim_start_of(s), s.trim_start());
        assert_eq!(first_word_of(s), s.split_whitespace().next());
    }
}

#[test]
fn prefixes_are_stripped_by_characters() {
    assert_eq!(strip_prefix("日志:x", "日志:"), Some("x"));
    assert_eq!(strip_prefix("abc", "abc"), Some(""));
    assert_eq!(strip_prefix("abc", ""), Some("abc"));
    assert_eq!(strip_prefix("ab", "abc"), None);
    assert_eq!(strip_prefix("xbc", "ab"), None);
}

#[test]
fn texts_are_compared_by_characters() {
    assert!(same_text("", ""));
    assert!(same_text("é日", "é日"));
    assert!(!same_text("a", "b"));
    assert!(!same_text("a", "ab"));
    assert_eq!(chars_of("é日a"), vec!['é', '日', 'a']);
}

#[test]
fn numerals_are_read_as_the_standard_library_reads_them() {
    for s in [
        "", "0", "007", "+7", "+", "-1", "++1", " 1", "1 ", "65535", "65536", "99999999999999999999",
        "18446744073709551615", "18446744073709551616", "１", "0x1", "+65535",
    ] {
        assert_eq!(parse_unsigned_up_to(s, u64::MAX), s.parse::<u64>().ok(), "{s:?}");
        assert_eq!(
            parse_unsigned_up_to(s, u16::MAX as u64),
            s.parse::<u16>().ok().map(u64::from),
            "{s:?}"
        );
    }
}

#[test]
fn numerals_are_written_as_the_standard_library_writes_them() {
    for n in [0u64, 7, 9, 10, 99, 100, 12345, u64::MAX] {
        assert_eq!(decimal_text(n), n.to_string());
        assert_eq!(parse_unsigned_up_to(&decimal_text(n), u64::MAX), Some(n));
    }
    for n in [0i32, 1, -1, -10, i32::MAX, i32::MIN] {
        assert_eq!(signed_decimal_text(n), n.to_string());
    }
}
