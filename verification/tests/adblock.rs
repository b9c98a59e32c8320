use kaze::adblock::{blocked_domain_list, build_ruleset_json, cosmetic_selector_list};
use serde_json::Value;

#[test]
fn produces_valid_json_array() {
    let json = build_ruleset_json();
    let parsed: Value = serde_json::from_str(&json).unwrap();
    assert!(parsed.is_array());
    assert!(parsed.as_array().unwrap().len() > 50);
}

#[test]
fn every_rule_has_trigger_and_action() {
    let json = build_ruleset_json();
    let parsed: Value = serde_json::from_str(&json).unwrap();
    for rule in parsed.as_array().unwrap() {
        assert!(rule.get("trigger").is_some());
        assert!(rule.get("action").is_some());
    }
}

#[test]
fn blocking_rules_come_first_with_escaped_dots() {
    let parsed: Value = serde_json::from_str(&build_ruleset_json()).unwrap();
    let rules = parsed.as_array().unwrap();
    let domains = blocked_domain_list();
    let selectors = cosmetic_selector_list();
    assert_eq!(rules.len(), domains.len() + selectors.len());
    assert_eq!(rules[0]["trigger"]["url-filter"], ".*doubleclick\\.net.*");
    assert_eq!(rules[0]["action"]["type"], "block");
    assert_eq!(rules[0]["trigger"]["resource-type"].as_array().unwrap().len(), 7);
    let first_cosmetic = &rules[domains.len()];
    assert_eq!(first_cosmetic["trigger"]["url-filter"], ".*");
    assert_eq!(first_cosmetic["action"]["type"], "css-display-none");
    assert_eq!(first_cosmetic["action"]["selector"], selectors[0]);
}

#[test]
fn ruleset_text_is_compact_with_sorted_keys() {
    let json = build_ruleset_json();
    assert!(json.starts_with(
        "[{\"action\":{\"type\":\"block\"},\"trigger\":{\"resource-type\":[\"document\",\"image\",\"style-sheet\",\"script\",\"raw\",\"font\",\"media\"],\"url-filter\":\".*doubleclick\\\\.net.*\"}}"
    ));
}
