use osu_beatmap_downloader::mirror::{status_is_success, Mirror};

#[test]
fn truthy_flags_select_the_alternative_mirror() {
    for flag in ["true", "TRUE", "True", "tRuE", "yes", "YES", "Yes", "1"] {
        assert_eq!(Mirror::from_env(Some(flag)), Mirror::Catboy, "{:?}", flag);
    }
}

#[test]
fn other_flags_select_the_primary_mirror() {
    for flag in ["", "0", "false", "no", "on", " true", "true ", "yess", "11", "y", "t", "truе"] {
        assert_eq!(Mirror::from_env(Some(flag)), Mirror::Nerinyan, "{:?}", flag);
    }
    assert_eq!(Mirror::from_env(None), Mirror::Nerinyan);
}

#[test]
fn flag_reads_as_with_std_lowercase() {
    for flag in ["true", "TRUE", "yes", "YeS", "1", "K", "\u{212A}", "İ", "ΤRUE", "Σ", "no", ""] {
        let lowered = flag.to_lowercase();
        let expected = if lowered == "true" || lowered == "yes" || lowered == "1" {
            Mirror::Catboy
        } else {
            Mirror::Nerinyan
        };
        assert_eq!(Mirror::from_env(Some(flag)), expected, "{:?}", flag);
    }
}

#[test]
fn download_url_names_the_set() {
    assert_eq!(Mirror::Nerinyan.download_url(42), "https://api.nerinyan.moe/d/42");
    assert_eq!(Mirror::Catboy.download_url(42), "https://catboy.best/d/42");
    assert_eq!(Mirror::Nerinyan.download_url(0), "https://api.nerinyan.moe/d/0");
    assert_eq!(
        Mirror::Catboy.download_url(u32::MAX),
        "https://catboy.best/d/4294967295"
    );
}

#[test]
fn mirror_profiles() {
    assert_eq!(Mirror::Nerinyan.name(), "Nerinyan");
    assert_eq!(Mirror::Catboy.name(), "Catboy");
    assert_eq!(Mirror::Nerinyan.max_concurrent(), 3);
    assert_eq!(Mirror::Catboy.max_concurrent(), 1);
    assert!(Mirror::Nerinyan.supports_header_feedback());
    assert!(!Mirror::Nerinyan.supports_polled_quota());
    assert!(!Mirror::Catboy.supports_header_feedback());
    assert!(Mirror::Catboy.supports_polled_quota());
    assert_eq!(Mirror::Nerinyan.quota_url(), None);
    assert_eq!(Mirror::Catboy.quota_url(), Some("https://catboy.best/api/ratelimits"));
}

#[test]
fn success_is_two_hundred_to_two_ninety_nine() {
    assert!(!status_is_success(199));
    assert!(status_is_success(200));
    assert!(status_is_success(204));
    assert!(status_is_success(299));
    assert!(!status_is_success(300));
    assert!(!status_is_success(404));
    assert!(!status_is_success(429));
    for code in 100u16..1000 {
        let status = reqwest::StatusCode::from_u16(code).unwrap();
        assert_eq!(status_is_success(code), status.is_success(), "{}", code);
    }
}

#[test]
fn only_ascii_letters_fold_into_the_truthy_words() {
    for n in 0u32..=0x10FFFF {
        if let Some(c) = char::from_u32(n) {
            let lowered: String = c.to_lowercase().collect();
            if c.is_ascii() {
                assert_eq!(lowered, c.to_ascii_lowercase().to_string(), "U+{:04X}", n);
            } else {
                assert!(!lowered.chars().any(|l| "trueys1".contains(l)), "U+{:04X}", n);
            }
        }
    }
}
