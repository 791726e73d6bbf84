use gear_editor::app_state::Locale;
use gear_editor::i18n::{accept_language_locale, all_locales, locale_label, parse_locale, request_locale};

#[test]
fn language_tags() {
    assert_eq!(parse_locale("ru"), Some(Locale::Ru));
    assert_eq!(parse_locale(" RU-ru "), Some(Locale::Ru));
    assert_eq!(parse_locale("zh_CN"), Some(Locale::Zh));
    assert_eq!(parse_locale("kr"), Some(Locale::Ko));
    assert_eq!(parse_locale("ko-KR"), Some(Locale::Ko));
    assert_eq!(parse_locale("ja"), Some(Locale::Ja));
    assert_eq!(parse_locale("en-GB"), Some(Locale::En));
    assert_eq!(parse_locale("de"), None);
    assert_eq!(parse_locale(""), None);
    assert_eq!(parse_locale("-en"), None);
}

#[test]
fn accept_language_lists() {
    assert_eq!(accept_language_locale("de-DE,de;q=0.9,ja;q=0.8,en;q=0.7"), Some(Locale::Ja));
    assert_eq!(accept_language_locale("fr, zh-CN;q=0.5"), Some(Locale::Zh));
    assert_eq!(accept_language_locale("fr,de"), None);
    assert_eq!(accept_language_locale(""), None);
}

#[test]
fn request_language() {
    assert_eq!(request_locale(Some("ko"), Some("ru")), Locale::Ko);
    assert_eq!(request_locale(Some("xx"), Some("ru-RU,en")), Locale::Ru);
    assert_eq!(request_locale(None, Some("fr")), Locale::En);
    assert_eq!(request_locale(None, None), Locale::En);
}

#[test]
fn language_select_entries() {
    let all = all_locales();
    assert_eq!(all, vec![Locale::En, Locale::Ru, Locale::Zh, Locale::Ko, Locale::Ja]);
    let labels: Vec<&str> = all.iter().map(|l| locale_label(*l)).collect();
    assert_eq!(labels, vec!["English", "Русский", "中文", "한국어", "日本語"]);
}
