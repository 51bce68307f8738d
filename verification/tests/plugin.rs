use up_linux_streamer::json::Json;
use up_linux_streamer::plugin::{config_change, ConfigChange, DEFAULT_SELECTOR, STORAGE_SELECTOR};

fn config(text: &str) -> Json {
    Json::parse("config", text).expect("valid JSON")
}

#[test]
fn the_selector_names_are_fixed() {
    assert_eq!(DEFAULT_SELECTOR, "demo/example/**");
    assert_eq!(STORAGE_SELECTOR, "storage-selector");
}

#[test]
fn a_new_selector_restarts_the_loop() {
    let old = config(r#"{"storage-selector": "demo/one/**"}"#);
    let new = config(r#"{"storage-selector": "demo/two/**"}"#);
    assert!(matches!(config_change("storage-selector", &old, &new), ConfigChange::Restart { selector } if selector == "demo/two/**"));
    assert!(matches!(config_change("", &old, &new), ConfigChange::Restart { selector } if selector == "demo/two/**"));
    assert!(matches!(config_change("", &config("{}"), &new), ConfigChange::Restart { selector } if selector == "demo/two/**"));
    assert!(matches!(config_change("", &config(r#"{"storage-selector": 3}"#), &new), ConfigChange::Restart { .. }));
}

#[test]
fn the_same_selector_changes_nothing() {
    let old = config(r#"{"storage-selector": "demo/one/**"}"#);
    let new = config(r#"{"storage-selector": "demo/one/**", "more": 1}"#);
    assert!(matches!(config_change("storage-selector", &old, &new), ConfigChange::Unknown { stop: false }));
}

#[test]
fn a_selector_that_is_gone_stops_the_loop() {
    let old = config(r#"{"storage-selector": "demo/one/**"}"#);
    assert!(matches!(config_change("", &old, &config("{}")), ConfigChange::Unknown { stop: true }));
    assert!(matches!(config_change("storage-selector", &config("{}"), &config("{}")), ConfigChange::Unknown { stop: true }));
}

#[test]
fn a_selector_must_be_a_string() {
    let old = config(r#"{"storage-selector": "demo/one/**"}"#);
    let new = config(r#"{"storage-selector": ["demo/two/**"]}"#);
    assert!(matches!(config_change("storage-selector", &old, &new), ConfigChange::NotAString));
}

#[test]
fn any_other_path_is_unknown() {
    let old = config(r#"{"storage-selector": "demo/one/**"}"#);
    let new = config(r#"{"storage-selector": "demo/two/**"}"#);
    assert!(matches!(config_change("something-else", &old, &new), ConfigChange::Unknown { stop: false }));
}
