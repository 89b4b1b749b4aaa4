use osu_beatmap_downloader::text::{
    ascii_lowercased, char_ascii_lower, char_is_control, char_is_whitespace, chars_of,
    decimal_string, parse_u32, parse_u64, push_decimal, spells, string_of, trim_bounds, Strip,
};

#[test]
fn whitespace_is_what_std_calls_whitespace() {
    for n in 0u32..=0x10FFFF {
        if let Some(c) = char::from_u32(n) {
            assert_eq!(char_is_whitespace(c), c.is_whitespace(), "U+{:04X}", n);
        }
    }
}

#[test]
fn control_is_what_std_calls_control() {
    for n in 0u32..=0x10FFFF {
        if let Some(c) = char::from_u32(n) {
            assert_eq!(char_is_control(c), c.is_control(), "U+{:04X}", n);
        }
    }
}

#[test]
fn ascii_lower_is_what_std_does() {
    for n in 0u32..=0x10FFFF {
        if let Some(c) = char::from_u32(n) {
            assert_eq!(char_ascii_lower(c), c.to_ascii_lowercase(), "U+{:04X}", n);
        }
    }
    assert_eq!(ascii_lowercased(&chars_of("TrUe É")), chars_of("true É"));
}

#[test]
fn chars_and_strings_round_trip() {
    let chars = chars_of("héllo");
    assert_eq!(chars, vec!['h', 'é', 'l', 'l', 'o']);
    assert_eq!(string_of(&chars, 0, 5), "héllo");
    assert_eq!(string_of(&chars, 1, 3), "él");
    assert_eq!(string_of(&chars, 2, 2), "");
    assert!(spells(&chars, "héllo"));
    assert!(!spells(&chars, "hello"));
    assert!(!spells(&chars, "héll"));
}

#[test]
fn decimal_string_writes_base_ten() {
    assert_eq!(decimal_string(0), "0");
    assert_eq!(decimal_string(7), "7");
    assert_eq!(decimal_string(10), "10");
    assert_eq!(decimal_string(4294967295), "4294967295");
    assert_eq!(decimal_string(u64::MAX), "18446744073709551615");
    let mut s = String::from("id=");
    push_decimal(&mut s, 1203);
    assert_eq!(s, "id=1203");
}

#[test]
fn parse_reads_what_std_reads() {
    let cases = [
        "", "+", "-", "0", "+0", "-0", "7", "+7", "007", "42 ", " 42", "4 2", "42a", "a42",
        "++1", "+-1", "4294967295", "4294967296", "18446744073709551615",
        "18446744073709551616", "000000000000000000000000000000000001",
        "99999999999999999999999999", "１２", "1_000", "0x10", "1.0",
    ];
    for case in cases {
        assert_eq!(parse_u32(case), case.parse::<u32>().ok(), "{:?}", case);
        assert_eq!(parse_u64(case), case.parse::<u64>().ok(), "{:?}", case);
    }
    assert_eq!(parse_u32("4294967295"), Some(u32::MAX));
    assert_eq!(parse_u32("4294967296"), None);
    assert_eq!(parse_u64("4294967296"), Some(4294967296));
    assert_eq!(parse_u64("18446744073709551616"), None);
}

#[test]
fn decimal_round_trip_on_values() {
    for n in [0u64, 1, 9, 10, 99, 100, 65535, 4294967295, 4294967296, u64::MAX] {
        assert_eq!(parse_u64(&decimal_string(n)), Some(n));
    }
}

#[test]
fn trim_bounds_match_std_trim() {
    let cases = ["", " ", "  a  ", "a", "\t\u{3000}yes\u{a0}\n", " a b ", "\u{2028}", "..a.."];
    for case in cases {
        let chars = chars_of(case);
        let (from, to) = trim_bounds(&chars, Strip::Whitespace);
        assert_eq!(string_of(&chars, from, to), case.trim(), "{:?}", case);
        let (from, to) = trim_bounds(&chars, Strip::DotsAndSpaces);
        assert_eq!(
            string_of(&chars, from, to),
            case.trim_matches(|c| c == '.' || c == ' '),
            "{:?}",
            case
        );
    }
}
