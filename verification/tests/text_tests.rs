use mew::text::{
    decimal_chars, lines_of, parse_u64, parse_usize, split_whitespace, str_contains,
    trim_str,
};

#[test]
fn lines_like_str_lines() {
    for s in ["a\r\nb\n\nc\r", "", "\n", "x", "x\n", "\r\n", "a\rb\nc"] {
        let expected: Vec<String> = s.lines().map(|l| l.to_string()).collect();
        assert_eq!(lines_of(s), expected, "{:?}", s);
    }
}

#[test]
fn tokens_like_split_whitespace() {
    for s in [" a\tb  c\u{3000}d ", "", "   ", "one", "\u{85}x\u{a0}y\u{2028}"] {
        let expected: Vec<String> = s.split_whitespace().map(|l| l.to_string()).collect();
        assert_eq!(split_whitespace(s), expected, "{:?}", s);
    }
}

#[test]
fn trim_like_str_trim() {
    for s in ["  a b  ", "\u{2003}x\u{200a}", "", "  ", "x"] {
        assert_eq!(trim_str(s), s.trim());
    }
}

#[test]
fn unsigned_parsing() {
    assert_eq!(parse_u64("+12"), Some(12));
    assert_eq!(parse_u64("0"), Some(0));
    assert_eq!(parse_u64(""), None);
    assert_eq!(parse_u64("+"), None);
    assert_eq!(parse_u64("-1"), None);
    assert_eq!(parse_u64(" 1"), None);
    assert_eq!(parse_u64("18446744073709551615"), Some(u64::MAX));
    assert_eq!(parse_u64("18446744073709551616"), None);
    assert_eq!(parse_u64("99999999999999999999999"), None);
    assert_eq!(parse_usize("42"), Some(42));
    for s in ["+12", "0", "", "+", "-1", " 1", "18446744073709551616", "007"] {
        assert_eq!(parse_u64(s), s.parse::<u64>().ok(), "{:?}", s);
    }
}

#[test]
fn decimals_read_back() {
    for n in [0u64, 9, 10, 12345, u64::MAX] {
        let text: String = decimal_chars(n).into_iter().collect();
        assert_eq!(text, n.to_string());
        assert_eq!(parse_u64(&text), Some(n));
    }
}

#[test]
fn substring_search() {
    assert!(str_contains("hello world", "o w"));
    assert!(str_contains("abc", ""));
    assert!(!str_contains("abc", "abcd"));
}
