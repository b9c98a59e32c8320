use kaze::engine::SuspendState;
use base64::Engine;
use kaze::engine::tab_view_config;
use kaze::newtab::{is_internal_page, resolve, DATA_URL_PREFIX, NEWTAB_HTML, NEWTAB_SENTINEL};
use kaze::tabs::ProfileId;

#[test]
fn sentinel_resolves_to_the_encoded_page() {
    let url = resolve(NEWTAB_SENTINEL);
    assert!(url.starts_with(DATA_URL_PREFIX));
    let decoded = base64::engine::general_purpose::STANDARD
        .decode(&url[DATA_URL_PREFIX.len()..])
        .unwrap();
    assert_eq!(decoded, NEWTAB_HTML.as_bytes());
    assert!(is_internal_page(&url));
    assert_eq!(resolve(&url), url);
}

#[test]
fn other_urls_resolve_to_themselves() {
    assert_eq!(resolve("https://example.com"), "https://example.com");
    assert_eq!(resolve("kaze://newtab/"), "kaze://newtab/");
}

#[test]
fn internal_pages_are_recognised() {
    assert!(is_internal_page("kaze://newtab"));
    assert!(is_internal_page("data:text/html;base64,AAAA"));
    assert!(!is_internal_page("data:text/html,<p>"));
    assert!(!is_internal_page("https://example.com"));
}

#[test]
fn view_config_resolves_the_sentinel() {
    let c = tab_view_config(NEWTAB_SENTINEL, ProfileId::Normal);
    assert!(c.initial_url.starts_with(DATA_URL_PREFIX));
    assert!(c.enable_javascript);
    assert!(c.user_agent.is_none());
    let d = tab_view_config("https://x.example", ProfileId::Incognito(3));
    assert_eq!(d.initial_url, "https://x.example");
    assert_eq!(d.profile, ProfileId::Incognito(3));
}

#[test]
fn suspension_navigates_away_once() {
    let mut s = SuspendState::new();
    assert!(s.suspend(Some("https://a.example".to_string())));
    assert!(s.suspended);
    assert_eq!(s.suspended_url.as_deref(), Some("https://a.example"));
    assert!(!s.suspend(Some("https://b.example".to_string())));
    assert_eq!(s.suspended_url.as_deref(), Some("https://a.example"));
    s.on_load();
    assert!(!s.suspended);
    assert!(s.suspend(None));
    assert_eq!(s.suspended_url.as_deref(), Some("https://a.example"));
}

#[test]
fn reactivation_reloads_the_remembered_url() {
    let mut s = SuspendState::new();
    assert_eq!(s.reactivate(), None);
    assert!(!s.suspended);
    assert!(s.suspend(Some("https://c.example/page".to_string())));
    assert_eq!(s.reactivate().as_deref(), Some("https://c.example/page"));
    assert!(!s.suspended);
    assert_eq!(s.reactivate(), None);
    let mut blank = SuspendState::new();
    assert!(blank.suspend(None));
    assert_eq!(blank.reactivate(), None);
    assert!(!blank.suspended);
}
