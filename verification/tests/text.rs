use mra::text::{byte_count, cap_text, contains, cut_text, decimal_text, is_blank, is_before, parse_u16, truncate_display};

#[test]
fn short_texts_are_kept() {
    assert_eq!(truncate_display("hello", 5), "hello");
    assert_eq!(truncate_display("", 0), "");
}

#[test]
fn long_texts_are_cut_between_characters() {
    assert_eq!(truncate_display("hello world", 5), "hello...");
    assert_eq!(truncate_display("日本語", 4), "日...");
    assert_eq!(truncate_display("日本語", 2), "...");
    assert_eq!(cut_text("abcdef", 3, "!"), "abc!");
    assert_eq!(cap_text("abcdef", 3, "!"), "ab!");
    assert_eq!(cap_text("abcdef", 3, "!!!!"), "abc");
    assert_eq!(cap_text("abc", 3, "!"), "abc");
}

#[test]
fn numbers_are_written_in_decimal() {
    assert_eq!(decimal_text(0), "0");
    assert_eq!(decimal_text(1_234_567_890), "1234567890");
    assert_eq!(decimal_text(u64::MAX), u64::MAX.to_string());
}

#[test]
fn bytes_are_counted() {
    assert_eq!(byte_count("aß日𝄞"), "aß日𝄞".len());
}

#[test]
fn blanks_are_those_of_unicode() {
    for text in ["", " ", "\t\n\r", "\u{3000}\u{a0}\u{2028}\u{85}\u{205f}"] {
        assert!(is_blank(text));
        assert!(text.trim().is_empty());
    }
    for text in ["x", " x ", "\u{200b}", "\u{feff}"] {
        assert!(!is_blank(text));
        assert!(!text.trim().is_empty());
    }
    for code in 0..0x3100u32 {
        if let Some(c) = char::from_u32(code) {
            assert_eq!(is_blank(&c.to_string()), c.is_whitespace(), "{code:x}");
        }
    }
}

#[test]
fn ports_are_parsed_as_std_does() {
    for text in [
        "0", "80", "65535", "65536", "+1", "-1", "", "+", "007", " 1", "1 ", "99999999999999999999",
        "0x10", "1_000", "++1",
    ] {
        assert_eq!(parse_u16(text), text.parse::<u16>().ok(), "{text:?}");
    }
}

#[test]
fn occurrences_are_found() {
    assert!(contains("abcabd", "abd"));
    assert!(contains("x", ""));
    assert!(!contains("", "x"));
    assert!(!contains("abab", "bb"));
}

#[test]
fn order_is_that_of_std() {
    let words = ["", "a", "aa", "ab", "b", "Z", "ß", "日", "\u{e000}", "𝄞"];
    for a in words {
        for b in words {
            assert_eq!(is_before(a, b), a < b, "{a:?} {b:?}");
        }
    }
}
