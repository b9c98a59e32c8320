use kaze::settings::{
    ColorScheme, GeneralSettings, KazeSettings, PrivacySettings, SearchEngine, TabSettings,
    ThemeSettings, CURRENT_SCHEMA_VERSION, DEFAULT_HOMEPAGE,
};

#[test]
fn defaults_match_the_schema() {
    let s = KazeSettings::default();
    assert_eq!(s.schema_version, CURRENT_SCHEMA_VERSION);
    assert_eq!(s.theme.accent_color, "#7c6cf0");
    assert_eq!(s.theme.sidebar_width_px, 240);
    assert_eq!(s.theme.color_scheme, ColorScheme::System);
    assert!(s.theme.animations_enabled && !s.theme.compact_mode);
    assert!(s.privacy.adblock_enabled && s.privacy.tracker_blocking_enabled);
    assert!(s.privacy.https_upgrade_enabled && s.privacy.block_third_party_cookies);
    assert_eq!(s.privacy.adblock_list_update_interval_hours, 24);
    assert!(s.privacy.adblock_allowlist.is_empty());
    assert_eq!(
        s.tabs,
        TabSettings {
            vertical_tabs: true,
            suspend_inactive_tabs: true,
            suspend_after_minutes: 15,
            open_new_tab_next_to_current: true,
            confirm_before_closing_multiple_tabs: true,
        }
    );
    assert_eq!(s.general.homepage, DEFAULT_HOMEPAGE);
    assert!(matches!(s.general.search_engine, SearchEngine::DuckDuckGo));
    assert!(s.general.restore_session_on_startup);
    assert!(s.general.default_download_dir.is_none());
    assert!(!s.general.ask_where_to_save_downloads);
    assert_eq!(ColorScheme::default(), ColorScheme::System);
    let _ = (ThemeSettings::default(), PrivacySettings::default(), GeneralSettings::default());
}

#[test]
fn default_engines_append_the_encoded_query() {
    assert_eq!(SearchEngine::DuckDuckGo.query_url("a b"), "https://duckduckgo.com/?q=a+b");
    assert_eq!(
        SearchEngine::Startpage.query_url("rust"),
        "https://www.startpage.com/sp/search?query=rust"
    );
    assert_eq!(SearchEngine::Brave.query_url("x&y"), "https://search.brave.com/search?q=x%26y");
}

#[test]
fn query_encoding_keeps_unreserved_and_escapes_the_rest() {
    assert_eq!(
        SearchEngine::DuckDuckGo.query_url("Az09-_.~ /?é"),
        "https://duckduckgo.com/?q=Az09-_.~+%2F%3F%C3%A9"
    );
    assert_eq!(SearchEngine::DuckDuckGo.query_url(""), "https://duckduckgo.com/?q=");
}

#[test]
fn custom_engine_fills_every_placeholder() {
    let e = SearchEngine::Custom("https://s.example/?a=%s&b=%s".to_string());
    assert_eq!(e.query_url("c d"), "https://s.example/?a=c+d&b=c+d");
    let none = SearchEngine::Custom("https://s.example/".to_string());
    assert_eq!(none.query_url("q"), "https://s.example/");
    let tricky = SearchEngine::Custom("%%ss".to_string());
    assert_eq!(tricky.query_url("q"), "%qs");
}

#[test]
fn encoded_queries_use_a_small_alphabet_and_predictable_length() {
    let prefix = "https://duckduckgo.com/?q=";
    let query = "héllo wörld+100%!";
    let url = SearchEngine::DuckDuckGo.query_url(query);
    let encoded = &url[prefix.len()..];
    let expected_len: usize = query
        .bytes()
        .map(|b| if b.is_ascii_alphanumeric() || b"-_.~ ".contains(&b) { 1 } else { 3 })
        .sum();
    assert_eq!(encoded.len(), expected_len);
    let chars: Vec<char> = encoded.chars().collect();
    for (i, c) in chars.iter().enumerate() {
        assert!(c.is_ascii_alphanumeric() || "-_.~+%".contains(*c));
        if *c == '%' {
            assert!(chars[i + 1].is_ascii_hexdigit() && !chars[i + 1].is_ascii_lowercase());
            assert!(chars[i + 2].is_ascii_hexdigit() && !chars[i + 2].is_ascii_lowercase());
        }
    }
    assert_eq!(encoded, "h%C3%A9llo+w%C3%B6rld%2B100%25%21");
}

#[test]
fn different_queries_encode_differently() {
    let e = SearchEngine::Brave;
    assert_ne!(e.query_url("a b"), e.query_url("a+b"));
    assert_ne!(e.query_url("%20"), e.query_url(" "));
    assert_ne!(e.query_url("é"), e.query_url("%C3%A9"));
}

#[test]
fn custom_template_gets_the_query_in_place_of_its_placeholder() {
    let e = SearchEngine::Custom("https://s.example/search?q=%s&lang=en".to_string());
    assert_eq!(e.query_url("a b&c"), "https://s.example/search?q=a+b%26c&lang=en");
}
