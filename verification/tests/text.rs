use wstunnel::text::{
    chars_of, decimal_of, find_first_of, find_text, is_space, is_word, parse_number,
    same_text, slice_of, split_on, stands_at, string_of, trimmed, without_leading,
};

fn chars(s: &str) -> Vec<char> {
    s.chars().collect()
}

#[test]
fn test_chars_and_strings() {
    assert_eq!(chars_of("a\u{e9}\u{1f600}"), vec!['a', '\u{e9}', '\u{1f600}']);
    assert_eq!(string_of(&vec!['a', '\u{e9}', '\u{1f600}']), "a\u{e9}\u{1f600}");
    assert_eq!(slice_of(&chars("hello"), 1, 3), chars("el"));
    assert!(same_text(&chars("ab"), &chars("ab")));
    assert!(!same_text(&chars("ab"), &chars("ac")));
    assert!(!same_text(&chars("ab"), &chars("abc")));
    assert!(is_word(&chars("tcp"), "tcp"));
    assert!(!is_word(&chars("tcp"), "udp"));
}

#[test]
fn test_find() {
    assert_eq!(find_first_of(&chars("a:b?c"), &chars("?:")), 1);
    assert_eq!(find_first_of(&chars("a:b?c"), &chars("?")), 3);
    assert_eq!(find_first_of(&chars("abc"), &chars("?:")), 3);
    assert_eq!(find_text(&chars("tcp://a://b"), &chars("://")), 3);
    assert_eq!(find_text(&chars("tcp:/a"), &chars("://")), 6);
    assert_eq!(find_text(&chars(""), &chars("://")), 0);
    assert!(stands_at(&chars("abc"), &chars("bc"), 1));
    assert!(!stands_at(&chars("abc"), &chars("bc"), 2));
    assert!(!stands_at(&chars("abc"), &chars("bc"), 7));
}

#[test]
fn test_split_and_trim() {
    assert_eq!(split_on(&chars("1.2..3"), '.'), vec![chars("1"), chars("2"), chars(""), chars("3")]);
    assert_eq!(split_on(&chars(""), '.'), vec![chars("")]);
    assert_eq!(split_on(&chars("."), '.'), vec![chars(""), chars("")]);
    assert_eq!(trimmed(&chars(" \t a b \n\u{a0}\u{3000}")), chars("a b"));
    assert_eq!(trimmed(&chars(" \r\n ")), chars(""));
    assert_eq!(trimmed(&chars("\u{200b}a")), chars("\u{200b}a"));
    assert_eq!(without_leading(&chars(":::a:"), ':'), chars("a:"));
    assert_eq!(without_leading(&chars("::"), ':'), chars(""));
    for c in 0..0x11000u32 {
        if let Some(c) = char::from_u32(c) {
            assert_eq!(is_space(c), c.is_whitespace(), "{:x}", c as u32);
        }
    }
    for text in [" a ", "\u{85}x\u{2028}", "\u{1680}\u{2000}y\u{200a}\u{202f}\u{205f}", "", "  "] {
        assert_eq!(string_of(&trimmed(&chars(text))), text.trim());
    }
}

#[test]
fn test_numbers() {
    assert_eq!(parse_number(&chars("443"), 65535), Some(443));
    assert_eq!(parse_number(&chars("+443"), 65535), Some(443));
    assert_eq!(parse_number(&chars("65535"), 65535), Some(65535));
    assert_eq!(parse_number(&chars("65536"), 65535), None);
    assert_eq!(parse_number(&chars("0065535"), 65535), Some(65535));
    assert_eq!(parse_number(&chars("18446744073709551615"), u64::MAX), Some(u64::MAX));
    assert_eq!(parse_number(&chars("18446744073709551616"), u64::MAX), None);
    assert_eq!(parse_number(&chars("99999999999999999999999"), u64::MAX), None);
    for bad in ["", "+", "-1", "1 ", " 1", "1_000", "0x10", "++1", "1+", "\u{663}"] {
        assert_eq!(parse_number(&chars(bad), u64::MAX), None, "{}", bad);
        assert_eq!(bad.parse::<u64>().ok(), None);
    }
    for n in [0u64, 7, 10, 99, 100, 443, 65535, u64::MAX] {
        assert_eq!(string_of(&decimal_of(n)), n.to_string());
        assert_eq!(parse_number(&decimal_of(n), u64::MAX), Some(n));
    }
}
