use kaze::engine::EngineEvent;
use kaze::tabs::{ProfileId, TabEvent, TabId, TabStore};
use kaze::window::{apply_engine_event_to_tab, normalize_input_to_url, react_to_tab_events, ViewAction};

#[test]
fn bare_domain_gets_https_scheme() {
    assert_eq!(normalize_input_to_url("example.com"), "https://example.com");
}

#[test]
fn full_url_passes_through() {
    assert_eq!(normalize_input_to_url("https://example.com/x"), "https://example.com/x");
}

#[test]
fn plain_words_become_a_search() {
    assert!(normalize_input_to_url("rust programming language").starts_with("https://duckduckgo.com"));
}

#[test]
fn empty_input_goes_to_blank() {
    assert_eq!(normalize_input_to_url("   "), "about:blank");
}

#[test]
fn input_is_trimmed_and_schemes_pass_through() {
    assert_eq!(normalize_input_to_url("  about:config \n"), "about:config");
    assert_eq!(normalize_input_to_url("file:///tmp/x"), "file:///tmp/x");
    assert_eq!(normalize_input_to_url("http://a b"), "http://a b");
    assert_eq!(normalize_input_to_url("a.b c"), "https://duckduckgo.com/?q=a.b+c");
    assert_eq!(normalize_input_to_url("rust lang"), "https://duckduckgo.com/?q=rust+lang");
}

#[test]
fn engine_events_update_the_tab() {
    let mut store = TabStore::new();
    let id = store.open("https://a.example", ProfileId::Normal, false);
    store.take_events();
    apply_engine_event_to_tab(&mut store, id, EngineEvent::LoadFinished);
    assert!(!store.get(id).unwrap().is_loading);
    apply_engine_event_to_tab(&mut store, id, EngineEvent::LoadStarted);
    assert!(store.get(id).unwrap().is_loading);
    apply_engine_event_to_tab(&mut store, id, EngineEvent::TitleChanged("T".to_string()));
    apply_engine_event_to_tab(&mut store, id, EngineEvent::UrlChanged("https://b.example".to_string()));
    apply_engine_event_to_tab(&mut store, id, EngineEvent::FaviconChanged(vec![1, 2]));
    apply_engine_event_to_tab(&mut store, id, EngineEvent::LoadProgress(0.5f64.to_bits()));
    let tab = store.get(id).unwrap();
    assert_eq!(tab.title, "T");
    assert_eq!(tab.url, "https://b.example");
    assert_eq!(tab.favicon, Some(vec![1, 2]));
    assert_eq!(store.take_events().len(), 6);
    apply_engine_event_to_tab(&mut store, TabId(1), EngineEvent::LoadStarted);
    assert!(store.take_events().is_empty());
}

#[test]
fn reaction_follows_the_events() {
    let a = TabId(1);
    let b = TabId(2);
    let none = react_to_tab_events(&vec![], Some(a));
    assert!(!none.sync_sidebar && none.actions.is_empty() && !none.refresh_toolbar);

    let r = react_to_tab_events(
        &vec![
            TabEvent::Created { id: b, index: 0 },
            TabEvent::Closed { id: a },
            TabEvent::Activated { id: b },
            TabEvent::Reordered,
        ],
        Some(b),
    );
    assert!(r.sync_sidebar);
    assert_eq!(r.actions, vec![ViewAction::TeardownView(a), ViewAction::ShowTabContent(b)]);
    assert!(r.refresh_toolbar);

    let other = react_to_tab_events(&vec![TabEvent::Updated { id: a }], Some(b));
    assert!(other.sync_sidebar && !other.refresh_toolbar);
    let own = react_to_tab_events(&vec![TabEvent::Updated { id: b }], Some(b));
    assert!(own.refresh_toolbar);
}

#[test]
fn normalizing_twice_changes_nothing() {
    for input in ["", "  example.com ", "rust lang", "about:blank", "https://a b", "a.b\tc", "é"] {
        let once = normalize_input_to_url(input);
        assert_eq!(normalize_input_to_url(&once), once);
    }
}

#[test]
fn any_scheme_passes_through() {
    assert_eq!(normalize_input_to_url("ftp://example.com"), "ftp://example.com");
    assert_eq!(normalize_input_to_url(" mailto:someone@example.com "), "mailto:someone@example.com");
    assert_eq!(normalize_input_to_url("svn+ssh://h.example/r"), "svn+ssh://h.example/r");
    assert_eq!(normalize_input_to_url("1ftp://x.y"), "https://1ftp://x.y");
    assert_eq!(normalize_input_to_url(":x.y"), "https://:x.y");
}

#[test]
fn host_with_port_is_no_scheme() {
    assert_eq!(normalize_input_to_url("example.com:8080"), "https://example.com:8080");
    assert_eq!(normalize_input_to_url("example.com:8080/x"), "https://example.com:8080/x");
    assert_eq!(normalize_input_to_url("data:text/html,hi"), "data:text/html,hi");
    assert_eq!(normalize_input_to_url("about:blank"), "about:blank");
    assert_eq!(normalize_input_to_url("news:comp.lang"), "https://news:comp.lang");
}
