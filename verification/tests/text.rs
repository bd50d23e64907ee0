use ftp_gateway::text::{chars_of, decimal_string, parse_u16_chars, string_of, white_space};

fn parse(s: &str) -> Option<u16> {
    parse_u16_chars(&s.chars().collect::<Vec<char>>())
}

#[test]
fn decimal_of_zero_and_limits() {
    assert_eq!(decimal_string(0), "0");
    assert_eq!(decimal_string(7), "7");
    assert_eq!(decimal_string(65535), "65535");
    assert_eq!(decimal_string(1000), "1000");
    assert_eq!(decimal_string(u64::MAX), "18446744073709551615");
}

#[test]
fn parse_u16_accepts_what_from_str_accepts() {
    assert_eq!(parse("0"), Some(0));
    assert_eq!(parse("21"), Some(21));
    assert_eq!(parse("+21"), Some(21));
    assert_eq!(parse("007"), Some(7));
    assert_eq!(parse("65535"), Some(65535));
    for s in ["0", "21", "+21", "007", "65535"] {
        assert_eq!(parse(s), s.parse::<u16>().ok());
    }
}

#[test]
fn parse_u16_refuses_what_from_str_refuses() {
    for s in ["", "+", "-1", "-0", " 1", "1 ", "65536", "99999999999", "1a", "a", "++1", "１"] {
        assert_eq!(parse(s), None, "{:?}", s);
        assert_eq!(s.parse::<u16>().ok(), None);
    }
}

#[test]
fn white_space_matches_std() {
    for c in ['\t', '\n', '\u{b}', '\u{c}', '\r', ' ', '\u{85}', '\u{a0}', '\u{1680}', '\u{2000}',
        '\u{200a}', '\u{2028}', '\u{2029}', '\u{202f}', '\u{205f}', '\u{3000}', 'a', '"', '\u{200b}',
        '\u{1f}', '0', '\u{feff}']
    {
        assert_eq!(white_space(c), c.is_whitespace(), "{:?}", c);
    }
}

#[test]
fn chars_and_strings_round_trip() {
    let v = chars_of("héllo, wörld");
    assert_eq!(v.len(), 12);
    assert_eq!(string_of(&v), "héllo, wörld");
}
