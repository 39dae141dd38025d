use joycon_rumble_bridge::text::{
    contains_chars, parse_unsigned, replace_chars, split_chars, split_ranges, string_of,
    sub_chars, trim_chars,
};

fn chars(s: &str) -> Vec<char> {
    s.chars().collect()
}

#[test]
fn splits_keep_empty_pieces() {
    let pieces = split_chars(&chars("a,,b,"), ',');
    let pieces: Vec<String> = pieces.iter().map(|p| p.iter().collect()).collect();
    assert_eq!(pieces, vec!["a", "", "b", ""]);
    assert_eq!(split_ranges(&chars("ab\ncd"), '\n'), vec![(0, 2), (3, 5)]);
}

#[test]
fn trims_unicode_whitespace() {
    assert_eq!(trim_chars(&chars(" \t x y \u{3000}")), chars("x y"));
    assert_eq!(trim_chars(&chars("   ")), chars(""));
}

#[test]
fn parses_unsigned_integers_like_std() {
    assert_eq!(parse_unsigned("42", 255), Some(42));
    assert_eq!(parse_unsigned("+7", 255), Some(7));
    assert_eq!(parse_unsigned("256", 255), None);
    assert_eq!(parse_unsigned("", 255), None);
    assert_eq!(parse_unsigned("+", 255), None);
    assert_eq!(parse_unsigned("1 2", 255), None);
    assert_eq!(parse_unsigned("18446744073709551615", u64::MAX), Some(u64::MAX));
    assert_eq!(parse_unsigned("18446744073709551616", u64::MAX), None);
}

#[test]
fn replaces_and_finds_patterns() {
    assert_eq!(replace_chars(&chars("aaa"), &chars("aa"), &chars("b")), chars("ba"));
    assert_eq!(replace_chars(&chars("xyz"), &chars("q"), &chars("r")), chars("xyz"));
    assert!(contains_chars(&chars("hello"), &chars("ll")));
    assert!(!contains_chars(&chars("hello"), &chars("lo!")));
    assert!(contains_chars(&chars(""), &chars("")));
    assert_eq!(sub_chars(&chars("hello"), 1, 3), chars("el"));
    assert_eq!(string_of(&chars("ok")), "ok");
}
