use hyprcut::watch::{on_file_events, ChangeKind, FileEvent, WatchAction};

fn ev(kind: ChangeKind, path: &str) -> FileEvent {
    FileEvent { kind, path: path.to_string() }
}

const PATH: &str = "/home/me/.config/hyprcut/config.toml";

#[test]
fn unrelated_events_are_ignored() {
    let events = vec![
        ev(ChangeKind::Any, "/home/me/.config/hyprcut/other.toml"),
        ev(ChangeKind::AnyContinuous, PATH),
    ];
    let (a, pending) = on_file_events(&events, PATH, true);
    assert!(matches!(a, WatchAction::Ignore));
    assert!(pending);
}

#[test]
fn own_save_is_skipped_once() {
    let events = vec![ev(ChangeKind::Any, PATH)];
    let (a, pending) = on_file_events(&events, PATH, true);
    assert!(matches!(a, WatchAction::SkipOwnSave));
    assert!(!pending);
    let (b, pending) = on_file_events(&events, PATH, pending);
    assert!(matches!(b, WatchAction::Reload));
    assert!(!pending);
}

#[test]
fn paths_compare_by_component() {
    let events = vec![ev(ChangeKind::Any, "/home/me/.config//hyprcut/config.toml")];
    let (a, _) = on_file_events(&events, PATH, false);
    assert!(matches!(a, WatchAction::Reload));
}
