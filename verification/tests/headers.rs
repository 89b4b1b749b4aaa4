use osu_beatmap_downloader::headers::{get_header_text, get_header_u32, get_header_u64};
use reqwest::header::{HeaderMap, HeaderName, HeaderValue};

fn headers(pairs: &[(&'static str, &'static str)]) -> HeaderMap {
    let mut map = HeaderMap::new();
    for (name, value) in pairs {
        map.append(HeaderName::from_static(name), HeaderValue::from_static(value));
    }
    map
}

#[test]
fn header_text_is_the_first_value() {
    let map = headers(&[("retry-after", "3"), ("retry-after", "9"), ("x-other", "abc def")]);
    assert_eq!(get_header_text(&map, "retry-after"), Some("3"));
    assert_eq!(get_header_text(&map, "x-other"), Some("abc def"));
    assert_eq!(get_header_text(&map, "x-ratelimit-reset"), None);
}

#[test]
fn header_text_is_found_however_the_name_was_sent() {
    let mut map = HeaderMap::new();
    map.insert(
        HeaderName::from_bytes(b"Retry-After").unwrap(),
        HeaderValue::from_static("12"),
    );
    assert_eq!(get_header_text(&map, "retry-after"), Some("12"));
    assert_eq!(get_header_u64(&map, "retry-after"), Some(12));
}

#[test]
fn header_with_opaque_bytes_has_no_text() {
    let mut map = HeaderMap::new();
    map.insert("x-ratelimit-reset", HeaderValue::from_bytes(&[0x31, 0xff]).unwrap());
    map.insert("retry-after", HeaderValue::from_bytes(b"1\t").unwrap());
    assert_eq!(get_header_text(&map, "x-ratelimit-reset"), None);
    assert_eq!(get_header_u64(&map, "x-ratelimit-reset"), None);
    assert_eq!(get_header_text(&map, "retry-after"), Some("1\t"));
    assert_eq!(get_header_u64(&map, "retry-after"), None);
}

#[test]
fn header_numbers_are_parsed() {
    let map = headers(&[
        ("x-ratelimit-remaining-minute", "5"),
        ("x-ratelimit-limit-minute", "+60"),
        ("x-ratelimit-reset", "18446744073709551615"),
        ("retry-after", " 7"),
        ("x-big", "4294967296"),
        ("x-empty", ""),
    ]);
    assert_eq!(get_header_u32(&map, "x-ratelimit-remaining-minute"), Some(5));
    assert_eq!(get_header_u32(&map, "x-ratelimit-limit-minute"), Some(60));
    assert_eq!(get_header_u64(&map, "x-ratelimit-reset"), Some(u64::MAX));
    assert_eq!(get_header_u32(&map, "x-ratelimit-reset"), None);
    assert_eq!(get_header_u64(&map, "retry-after"), None);
    assert_eq!(get_header_u32(&map, "x-big"), None);
    assert_eq!(get_header_u64(&map, "x-big"), Some(4294967296));
    assert_eq!(get_header_u32(&map, "x-empty"), None);
    assert_eq!(get_header_u32(&map, "x-missing"), None);
}

#[test]
fn header_is_found_under_any_spelling_of_the_key() {
    let map = headers(&[("retry-after", "3"), ("x_custom", "8"), ("x-ratelimit-reset", "30")]);
    for key in ["retry-after", "Retry-After", "RETRY-AFTER", "rEtRy-aFtEr"] {
        assert_eq!(get_header_text(&map, key), Some("3"), "{:?}", key);
        assert_eq!(get_header_u64(&map, key), Some(3), "{:?}", key);
    }
    assert_eq!(get_header_u32(&map, "x_custom"), Some(8));
    assert_eq!(get_header_u32(&map, "X_Custom"), Some(8));
    assert_eq!(get_header_u32(&map, "X-RateLimit-Reset"), Some(30));
}

#[test]
fn key_that_is_no_header_name_finds_nothing() {
    let map = headers(&[("retry-after", "3"), ("a", "1")]);
    let keys = [
        "", " ", "retry after", "retry-after ", "retry-after:", "r\u{e9}try", "\u{212A}", "a\n",
    ];
    for key in keys {
        assert_eq!(get_header_text(&map, key), None, "{:?}", key);
        assert_eq!(get_header_u32(&map, key), None, "{:?}", key);
    }
    let long_key = "a".repeat(70_000);
    assert_eq!(get_header_text(&map, &long_key), None);
}

#[test]
fn long_header_names_are_folded_too() {
    let long_name = "B".repeat(100);
    let mut map = HeaderMap::new();
    map.insert(
        HeaderName::from_bytes(long_name.to_lowercase().as_bytes()).unwrap(),
        HeaderValue::from_static("77"),
    );
    assert_eq!(get_header_u32(&map, &long_name), Some(77));
    assert_eq!(get_header_u32(&map, &long_name.to_lowercase()), Some(77));
    assert_eq!(get_header_u32(&map, &"b".repeat(99)), None);
}
