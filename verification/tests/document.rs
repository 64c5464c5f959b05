use hyprcut::config::{lowercase_app_names, AppConfig, Config, OverlayConfig, Shortcut, ShortcutList};
use hyprcut::document::{config_document, config_toml};
use hyprcut::name_map::NameMap;

fn sc(k: &str, l: &str) -> Shortcut {
    Shortcut { keys: k.to_string(), label: l.to_string() }
}

fn app(name: &str, shortcuts: ShortcutList) -> AppConfig {
    AppConfig { name: name.to_string(), shortcuts, bg: None, text: None, position: None }
}

fn config() -> Config {
    let mut apps = NameMap::new();
    let mut groups = NameMap::new();
    groups.insert("tabs".to_string(), vec![sc("Ctrl+T", "New tab")]);
    groups.insert("edit".to_string(), vec![sc(":w", "Save")]);
    apps.insert("kitty".to_string(), app("Kitty", ShortcutList::Grouped(groups)));
    let mut ff = app("Firefox", ShortcutList::Flat(vec![sc("Ctrl+L", "Focus address bar"), sc("Ctrl+T", "New tab")]));
    ff.position = Some([3, -4]);
    ff.bg = Some("#000000".to_string());
    apps.insert("firefox".to_string(), ff);
    apps.insert("bare".to_string(), app("Bare", ShortcutList::Empty));
    Config {
        overlay: OverlayConfig {
            position: [100, 50],
            opacity_bits: 0.75_f64.to_bits(),
            font_size: 14,
            bg: None,
            text: Some("white".to_string()),
            border_color: Some("red".to_string()),
            font_family: Some("mono".to_string()),
        },
        apps,
    }
}

#[test]
fn saved_document_round_trips() {
    let c = config();
    let text = config_toml(&c, toml_edit::value(0.75));
    let v: toml::Table = toml::from_str(&text).unwrap();
    let ov = v["overlay"].as_table().unwrap();
    assert_eq!(ov["position"].as_array().unwrap().len(), 2);
    assert_eq!(ov["position"][0].as_integer(), Some(100));
    assert_eq!(ov["opacity"].as_float(), Some(0.75));
    assert_eq!(ov["font_size"].as_integer(), Some(14));
    assert_eq!(ov["text"].as_str(), Some("white"));
    assert_eq!(ov["font_family"].as_str(), Some("mono"));
    assert!(!ov.contains_key("bg"));
    assert!(!ov.contains_key("border_color"));
    let apps = v["apps"].as_table().unwrap();
    let ff = apps["firefox"].as_table().unwrap();
    assert_eq!(ff["name"].as_str(), Some("Firefox"));
    assert_eq!(ff["position"][1].as_integer(), Some(-4));
    assert_eq!(ff["bg"].as_str(), Some("#000000"));
    assert_eq!(ff["shortcuts"][0]["keys"].as_str(), Some("Ctrl+L"));
    assert_eq!(ff["shortcuts"][1]["label"].as_str(), Some("New tab"));
    let kitty = apps["kitty"].as_table().unwrap();
    assert_eq!(kitty["shortcuts"]["edit"][0]["label"].as_str(), Some("Save"));
    let bare = apps["bare"].as_table().unwrap();
    assert!(!bare.contains_key("shortcuts"));
}

#[test]
fn saved_document_lists_apps_and_groups_in_name_order() {
    let text = config_toml(&config(), toml_edit::value(0.75));
    let bare = text.find("[apps.bare]").unwrap();
    let ff = text.find("[apps.firefox]").unwrap();
    let kitty = text.find("[apps.kitty]").unwrap();
    assert!(bare < ff && ff < kitty);
    let edit = text.find("edit = ").unwrap();
    let tabs = text.find("tabs = ").unwrap();
    assert!(edit < tabs);
    assert!(text.find("[overlay]").unwrap() < bare);
    assert!(!text.contains("[apps]\n"));
}

#[test]
fn document_root_has_overlay_then_apps() {
    let d = config_document(&config(), toml_edit::value(0.5));
    let keys: Vec<&str> = d.iter().map(|(k, _)| k).collect();
    assert_eq!(keys, vec!["overlay", "apps"]);
}

#[test]
fn app_names_are_lowercased_later_wins() {
    let mut apps = NameMap::new();
    apps.insert("Firefox".to_string(), app("one", ShortcutList::Empty));
    apps.insert("KITTY".to_string(), app("Kitty", ShortcutList::Empty));
    apps.insert("FIREFOX".to_string(), app("two", ShortcutList::Empty));
    let r = lowercase_app_names(apps);
    assert_eq!(r.len(), 2);
    assert_eq!(r.get("firefox").map(|a| a.name.as_str()), Some("two"));
    assert_eq!(r.get("kitty").map(|a| a.name.as_str()), Some("Kitty"));
    assert!(r.get("Firefox").is_none());
}

#[test]
fn normalized_class_finds_app_configured_in_any_case() {
    let mut apps = NameMap::new();
    apps.insert("Org.Gnome.Nautilus".to_string(), app("Files", ShortcutList::Empty));
    let apps = lowercase_app_names(apps);
    let class = hyprcut::ipc::normalize_class("  org.gnome.NAUTILUS ");
    let found = hyprcut::state::resolve_class(&class, &apps);
    assert_eq!(found.map(|a| a.name.as_str()), Some("Files"));
}
