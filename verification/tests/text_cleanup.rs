use liao_tools::commands::tax::query::TaxQuery;
use liao_tools::commands::updater::{
    compare_versions, default_check_interval, parse_version, should_check_for_updates,
    split_text, UpdateSettings,
};
use liao_tools::common::html::{is_whitespace, HtmlParser};
use std::time::{SystemTime, UNIX_EPOCH};

#[test]
fn test_clean_text() {
    let text = "  Hello   World  \n\n  Test  ";
    assert_eq!(HtmlParser::clean_text(text), "Hello World Test");
}

#[test]
fn test_extract_digits() {
    let text = "HS Code: 1234-5678-90";
    assert_eq!(HtmlParser::extract_digits(text), "1234567890");
}

#[test]
fn test_normalize_code() {
    assert_eq!(TaxQuery::normalize_code("0101-210-000"), "0101210000");
    assert_eq!(TaxQuery::normalize_code("0101 210 000"), "0101210000");
    assert_eq!(TaxQuery::normalize_code("abc0101210000xyz"), "0101210000");
}

#[test]
fn test_compare_versions() {
    assert!(compare_versions("1.2.3", "1.2.2"));
    assert!(compare_versions("1.3.0", "1.2.9"));
    assert!(compare_versions("2.0.0", "1.9.9"));
    assert!(!compare_versions("1.2.2", "1.2.3"));
    assert!(!compare_versions("1.2.3", "1.2.3"));
}

#[test]
fn test_should_check_for_updates() {
    let now = SystemTime::now().duration_since(UNIX_EPOCH).unwrap().as_secs();
    let mut settings = UpdateSettings::default();
    assert!(should_check_for_updates(&settings, now));

    settings.last_check_time = now;
    assert!(!should_check_for_updates(&settings, now));

    settings.auto_check = false;
    assert!(!should_check_for_updates(&settings, now));
}

#[test]
fn clean_text_agrees_with_split_whitespace() {
    let samples = [
        "",
        " ",
        "one",
        " one",
        "one ",
        "a\u{00A0}b\u{3000}c",
        "\t\ttabs\tand\r\nlines\u{2028}here ",
        "x\u{200B}y",
    ];
    for sample in samples {
        let expected = sample.split_whitespace().collect::<Vec<_>>().join(" ");
        assert_eq!(HtmlParser::clean_text(sample), expected);
    }
}

#[test]
fn whitespace_is_what_char_says() {
    for code in 0u32..0x3100 {
        if let Some(c) = char::from_u32(code) {
            assert_eq!(is_whitespace(c), c.is_whitespace());
        }
    }
}

#[test]
fn extract_digits_keeps_only_ascii_digits() {
    assert_eq!(HtmlParser::extract_digits(""), "");
    assert_eq!(HtmlParser::extract_digits("no digits"), "");
    assert_eq!(HtmlParser::extract_digits("٣a1²b2"), "12");
}

#[test]
fn versions_compare_number_by_number() {
    assert!(compare_versions("1.10", "1.9"));
    assert!(compare_versions("1.0.1", "1"));
    assert!(!compare_versions("1.0.0", "1"));
    assert!(!compare_versions("", ""));
    assert!(compare_versions("v2.1", "v2"));
    assert!(!compare_versions("1.x.3", "1.3"));
    assert_eq!(parse_version("1.2.3"), vec![1, 2, 3]);
    assert_eq!(parse_version("1.beta.+4."), vec![1, 4]);
    assert_eq!(parse_version("4294967296.7"), vec![7]);
}

#[test]
fn split_text_keeps_empty_pieces() {
    assert_eq!(split_text("", '.'), vec![String::new()]);
    assert_eq!(split_text("a", '.'), vec!["a".to_string()]);
    assert_eq!(
        split_text(".a..b.", '.'),
        vec!["", "a", "", "b", ""].into_iter().map(String::from).collect::<Vec<_>>()
    );
}

#[test]
fn update_checks_wait_for_the_interval() {
    assert_eq!(default_check_interval(), 24);
    let settings = UpdateSettings { auto_check: true, last_check_time: 1_000_000, check_interval_hours: 2 };
    assert!(!should_check_for_updates(&settings, 1_000_000 + 7199));
    assert!(should_check_for_updates(&settings, 1_000_000 + 7200));
    let by_default = UpdateSettings { check_interval_hours: 0, ..settings };
    assert!(!should_check_for_updates(&by_default, 1_000_000 + 24 * 3600 - 1));
    assert!(should_check_for_updates(&by_default, 1_000_000 + 24 * 3600));
    assert!(!should_check_for_updates(&settings, 999_999));
}
