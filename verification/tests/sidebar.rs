use kaze::migrations::{load_document, migrate, schema_version_from};
use kaze::sidebar::sidebar_rows;
use kaze::tabs::{ProfileId, TabStore};

#[test]
fn rows_follow_the_store() {
    let mut store = TabStore::new();
    let a = store.open("https://a.example", ProfileId::Normal, false);
    let b = store.open("https://b.example", ProfileId::Incognito(9), false);
    store.update(a, |mut t| {
        t.title = String::new();
        t
    });
    store.update(b, |mut t| {
        t.title = "Bee".to_string();
        t
    });
    store.activate(b);
    let rows = sidebar_rows(&store);
    assert_eq!(rows.len(), 2);
    assert_eq!(rows[0].id, a);
    assert_eq!(rows[0].label, "https://a.example");
    assert!(!rows[0].is_active && !rows[0].is_incognito);
    assert_eq!(rows[1].label, "Bee");
    assert!(rows[1].is_active && rows[1].is_incognito);
}

#[test]
fn migration_keeps_the_document() {
    let doc: toml::Value = toml::from_str("schema_version = 1\n[theme]\ncompact_mode = true\n").unwrap();
    assert_eq!(migrate(doc.clone()), doc);
    assert_eq!(schema_version_from(None), 1);
    assert_eq!(schema_version_from(Some(3)), 3);
    assert_eq!(schema_version_from(Some(-1)), u32::MAX);
}

#[test]
fn exactly_one_row_is_active() {
    let mut store = TabStore::new();
    let a = store.open("https://a.example", ProfileId::Normal, false);
    store.open("https://b.example", ProfileId::Normal, false);
    assert!(sidebar_rows(&store).iter().all(|r| !r.is_active));
    store.activate(a);
    assert_eq!(sidebar_rows(&store).iter().filter(|r| r.is_active).count(), 1);
}

#[test]
fn settings_text_loads_only_as_toml() {
    let text = "schema_version = 1\n[general]\nhomepage = \"kaze:newtab\"\n";
    let doc = load_document(text).unwrap();
    let direct: toml::Value = toml::from_str(text).unwrap();
    assert_eq!(doc, direct);
    assert_eq!(doc.get("general").and_then(|g| g.get("homepage")).and_then(|h| h.as_str()), Some("kaze:newtab"));
    assert!(load_document("").is_ok());
    assert!(load_document("[general\nhomepage = 1").is_err());
    assert!(load_document("a = = 1").is_err());
}
