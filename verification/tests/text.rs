use hyprcut::config::config_path;
use hyprcut::ipc::{event_class, find_monitor};
use hyprcut::order::str_lt;
use hyprcut::text::trim;

#[test]
fn trim_removes_unicode_white_space() {
    assert_eq!(trim("\u{3000}\t a b \n\u{85}"), "a b");
    assert_eq!(trim("   "), "");
    assert_eq!(trim("x"), "x");
}

#[test]
fn event_class_drops_blank_classes() {
    assert_eq!(event_class(Some("  Kitty ".to_string())), Some("kitty".to_string()));
    assert_eq!(event_class(Some("   ".to_string())), None);
    assert_eq!(event_class(None), None);
}

#[test]
fn monitor_lookup_finds_first_match() {
    let ids: Vec<i128> = vec![3, 1, 1];
    assert_eq!(find_monitor(&ids, Some(1)), Some(1));
    assert_eq!(find_monitor(&ids, Some(7)), None);
    assert_eq!(find_monitor(&ids, None), None);
}

#[test]
fn config_path_joins_home() {
    assert_eq!(config_path("/home/me"), "/home/me/.config/hyprcut/config.toml");
    assert_eq!(config_path("/home/me/"), "/home/me/.config/hyprcut/config.toml");
    assert_eq!(config_path(""), ".config/hyprcut/config.toml");
}

#[test]
fn names_order_by_code_point() {
    assert!(str_lt("abc", "abd"));
    assert!(str_lt("ab", "abc"));
    assert!(!str_lt("abc", "ab"));
    assert!(!str_lt("b", "b"));
    assert!(str_lt("Z", "a"));
    assert!(str_lt("z", "é"));
}
