use hyprcut::config::{AppConfig, Config, OverlayConfig, Shortcut, ShortcutList};
use hyprcut::name_map::NameMap;
use hyprcut::overlay::{find_connector, OverlayState, WindowFacts};
use hyprcut::state::OverlayMessage;

fn app(name: &str, position: Option<[i32; 2]>) -> AppConfig {
    AppConfig {
        name: name.to_string(),
        shortcuts: ShortcutList::Flat(vec![Shortcut { keys: "Ctrl+T".into(), label: "New tab".into() }]),
        bg: None,
        text: None,
        position,
    }
}

fn config() -> Config {
    let mut apps = NameMap::new();
    apps.insert("firefox".to_string(), app("Firefox", None));
    apps.insert("kitty".to_string(), app("Kitty", Some([5, 6])));
    Config {
        overlay: OverlayConfig {
            position: [100, 50],
            opacity_bits: 0.75_f64.to_bits(),
            font_size: 14,
            bg: None,
            text: None,
            border_color: None,
            font_family: None,
        },
        apps,
    }
}

fn facts(x: i32, y: i32, visible: bool) -> WindowFacts {
    WindowFacts { margin_left: x, margin_top: y, visible }
}

#[test]
fn starts_hidden_at_overlay_position() {
    let (state, u) = OverlayState::new(config());
    assert!(state.current_class.is_none());
    assert_eq!(u.margin_left, Some(100));
    assert_eq!(u.margin_top, Some(50));
    assert_eq!(u.visible, Some(false));
    assert!(u.style.is_some());
}

#[test]
fn configured_class_is_shown() {
    let (mut state, _) = OverlayState::new(config());
    let u = state.handle_message(
        OverlayMessage::ActiveWindowChanged(Some("kitty".to_string()), Some("DP-1".to_string())),
        facts(100, 50, false),
    );
    assert_eq!(u.monitor.as_deref(), Some("DP-1"));
    assert_eq!((u.margin_left, u.margin_top), (Some(5), Some(6)));
    assert_eq!(u.title.as_deref(), Some("Kitty"));
    assert_eq!(u.rows.as_ref().map(|r| r.len()), Some(1));
    assert_eq!(u.visible, Some(true));
    assert_eq!(state.current_class.as_deref(), Some("kitty"));
}

#[test]
fn unknown_class_hides() {
    let (mut state, _) = OverlayState::new(config());
    let u = state.handle_message(
        OverlayMessage::ActiveWindowChanged(Some("gimp".to_string()), None),
        facts(100, 50, true),
    );
    assert_eq!(u.visible, Some(false));
    assert!(u.title.is_none() && u.rows.is_none() && u.style.is_none());
    assert!(u.margin_left.is_none() && u.margin_top.is_none());
    assert_eq!(state.current_class.as_deref(), Some("gimp"));
}

#[test]
fn drag_is_remembered_for_the_app() {
    let (mut state, _) = OverlayState::new(config());
    state.handle_message(
        OverlayMessage::ActiveWindowChanged(Some("firefox".to_string()), None),
        facts(100, 50, false),
    );
    let pos = state.end_drag((100, 50), (-30, 7), 2);
    assert_eq!(pos, [40, 64]);
    assert_eq!(state.config.overlay.position, [100, 50]);
    state.handle_message(OverlayMessage::ActiveWindowChanged(None, None), facts(40, 64, true));
    let u = state.handle_message(
        OverlayMessage::ActiveWindowChanged(Some("firefox".to_string()), None),
        facts(40, 64, false),
    );
    assert_eq!((u.margin_left, u.margin_top), (Some(40), Some(64)));
}

#[test]
fn drag_without_app_moves_overlay_default() {
    let (mut state, _) = OverlayState::new(config());
    let pos = state.end_drag((10, 10), (-50, 3), 1);
    assert_eq!(pos, [0, 13]);
    assert_eq!(state.config.overlay.position, [0, 13]);
}

#[test]
fn reload_sets_only_changed_margins() {
    let (mut state, _) = OverlayState::new(config());
    state.handle_message(
        OverlayMessage::ActiveWindowChanged(Some("kitty".to_string()), None),
        facts(100, 50, false),
    );
    let mut newc = config();
    newc.apps.insert("kitty".to_string(), app("Kitty 2", Some([5, 9])));
    let u = state.handle_message(OverlayMessage::ConfigReloaded(newc), facts(5, 6, true));
    assert_eq!(u.margin_left, None);
    assert_eq!(u.margin_top, Some(9));
    assert_eq!(u.title.as_deref(), Some("Kitty 2"));
    assert!(u.style.is_some());
    assert!(u.visible.is_none());
    assert_eq!(state.config.apps.get("kitty").map(|a| a.name.as_str()), Some("Kitty 2"));
}

#[test]
fn reload_of_hidden_window_only_restyles() {
    let (mut state, _) = OverlayState::new(config());
    let u = state.handle_message(OverlayMessage::ConfigReloaded(config()), facts(1, 50, false));
    assert_eq!(u.margin_left, Some(100));
    assert_eq!(u.margin_top, None);
    assert!(u.title.is_none() && u.rows.is_none());
    assert!(u.style.is_some());
}

#[test]
fn connector_lookup() {
    let c = vec![None, Some("eDP-1".to_string()), Some("DP-1".to_string())];
    assert_eq!(find_connector(&c, "DP-1"), Some(2));
    assert_eq!(find_connector(&c, "HDMI-A-1"), None);
}
