use hyprcut::config::{AppConfig, Shortcut, ShortcutList};
use hyprcut::name_map::NameMap;
use hyprcut::state::resolve_class;

fn make_app(name: &str) -> AppConfig {
    AppConfig {
        name: name.to_string(),
        shortcuts: ShortcutList::Flat(vec![Shortcut { keys: "Ctrl+T".into(), label: "Test".into() }]),
        bg: None,
        text: None,
        position: None,
    }
}

#[test]
fn resolve_class_returns_matching_app() {
    let mut apps = NameMap::new();
    apps.insert("firefox".to_string(), make_app("Firefox"));
    let result = resolve_class("firefox", &apps);
    assert!(result.is_some());
    assert_eq!(result.unwrap().name, "Firefox");
}

#[test]
fn resolve_class_returns_none_for_unknown() {
    let apps: NameMap<AppConfig> = NameMap::new();
    assert!(resolve_class("unknown", &apps).is_none());
}

#[test]
fn resolve_class_is_case_sensitive() {
    let mut apps = NameMap::new();
    apps.insert("firefox".to_string(), make_app("Firefox"));
    assert!(resolve_class("Firefox", &apps).is_none());
}
