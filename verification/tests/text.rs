use catalog_bench::text::{
    behind_prefix, chars_of, decimal_text, join_from, left_aligned, lowercase_text, position,
    replace_text, right_aligned, same, split_lines, strip, strip_end, strip_start, text_of,
    CharClass,
};

#[test]
fn white_characters_are_those_of_unicode() {
    for n in 0u32..=0x10ffff {
        if let Some(c) = char::from_u32(n) {
            assert_eq!(CharClass::White.test(c), c.is_whitespace(), "{:x}", n);
            assert_eq!(CharClass::Slash.test(c), c == '/');
        }
    }
}

#[test]
fn trimming_agrees_with_std() {
    for s in ["", "/", "//a/b//", "a", " a b\t\n", "\u{2003}x\u{85}", "/ /", "a//"] {
        assert_eq!(strip_start(s, CharClass::Slash), s.trim_start_matches('/'));
        assert_eq!(strip_end(s, CharClass::Slash), s.trim_end_matches('/'));
        assert_eq!(strip(s, CharClass::Slash), s.trim_matches('/'));
        assert_eq!(strip(s, CharClass::White), s.trim());
    }
}

#[test]
fn lines_agree_with_std() {
    for s in
        ["", "\n", "a", "a\n", "a\nb", "a\r\nb\r\n", "\r\n\r\n", "a\rb\n", "a\n\nb", "a\r", "\r\r\n", "x\n\r"]
    {
        let want: Vec<&str> = s.lines().collect();
        assert_eq!(split_lines(s), want, "{:?}", s);
    }
}

#[test]
fn replacing_agrees_with_std() {
    for s in ["", "aaa", "aaaa", "xaay", "http://localhost:9", "ababa", "é127.0.0.1é"] {
        for from in ["a", "aa", "aba", "localhost", "127.0.0.1", "é"] {
            assert_eq!(replace_text(s, from, "<>"), s.replace(from, "<>"));
            assert_eq!(replace_text(s, from, ""), s.replace(from, ""));
        }
    }
}

#[test]
fn padding_agrees_with_format() {
    for s in ["", "a", "héllo", "a long text"] {
        assert_eq!(left_aligned(s, 7), format!("{:<7}", s));
        assert_eq!(right_aligned(s, ' ', 7), format!("{:>7}", s));
    }
    assert_eq!(right_aligned("12", '0', 8), format!("{:08}", 12));
    assert_eq!(right_aligned("123456789", '0', 8), format!("{:08}", 123456789u64));
}

#[test]
fn decimals_agree_with_std() {
    for n in [0u64, 1, 9, 10, 11, 99, 100, 1_000_000, u64::MAX] {
        assert_eq!(decimal_text(n), n.to_string());
    }
}

#[test]
fn letters_are_lowered() {
    let s: String = (0u32..0x250).filter_map(char::from_u32).collect();
    assert_eq!(lowercase_text(&s), s.to_ascii_lowercase());
}

#[test]
fn prefixes_are_taken_off() {
    assert_eq!(behind_prefix("SPARK_RESULT {}", "SPARK_RESULT "), Some("{}".to_string()));
    assert_eq!(behind_prefix("SPARK_RESULT", "SPARK_RESULT "), None);
    assert_eq!(behind_prefix("abc", ""), Some("abc".to_string()));
    assert_eq!(behind_prefix("abc", "ac"), None);
}

#[test]
fn pieces_of_text() {
    let cs = chars_of("a/é");
    assert_eq!(cs, vec!['a', '/', 'é']);
    assert_eq!(text_of(&cs, 1, 3), "/é");
    assert_eq!(position(&cs, '/', 0), 1);
    assert_eq!(position(&cs, '/', 2), 3);
    let parts = vec!["a".to_string(), "b".to_string(), "c".to_string()];
    assert_eq!(join_from(&parts, 0, ", "), "a, b, c");
    assert_eq!(join_from(&parts, 2, ", "), "c");
    assert_eq!(join_from(&parts, 3, ", "), "");
    assert!(same("x", "x"));
    assert!(!same("x", "xy"));
}
