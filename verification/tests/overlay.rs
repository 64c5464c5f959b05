use hyprcut::config::{Shortcut, ShortcutList};
use hyprcut::name_map::NameMap;
use hyprcut::overlay::apply_drag_offset;
use hyprcut::shortcuts::shortcut_rows;

#[test]
fn shortcut_rows_flat() {
    let shortcuts = ShortcutList::Flat(vec![
        Shortcut { keys: "Ctrl+T".into(), label: "New tab".into() },
        Shortcut { keys: "Ctrl+W".into(), label: "Close tab".into() },
    ]);
    let rows = shortcut_rows(&shortcuts);
    assert_eq!(rows.len(), 2);
    assert_eq!(rows[0].0, "Ctrl+T");
}

#[test]
fn shortcut_rows_grouped_flattens_all_entries() {
    let mut groups = NameMap::new();
    groups.insert("nav".into(), vec![Shortcut { keys: "G".into(), label: "Go".into() }]);
    groups.insert("edit".into(), vec![Shortcut { keys: ":w".into(), label: "Save".into() }]);
    let shortcuts = ShortcutList::Grouped(groups);
    let rows = shortcut_rows(&shortcuts);
    assert_eq!(rows.len(), 2);
}

#[test]
fn shortcut_rows_empty() {
    let rows = shortcut_rows(&ShortcutList::Empty);
    assert!(rows.is_empty());
}

// The offsets of a drag gesture are floats, truncated toward zero before
// the library moves the position by them.
#[test]
fn drag_offset_moves_1_to_1() {
    assert_eq!(apply_drag_offset((100, 200), (50.0_f64 as i32, 30.0_f64 as i32)), (150, 230));
}

#[test]
fn drag_offset_clamps_to_zero() {
    assert_eq!(apply_drag_offset((10, 10), (-50.0_f64 as i32, -50.0_f64 as i32)), (0, 0));
}

#[test]
fn drag_offset_truncates_fractional() {
    assert_eq!(apply_drag_offset((100, 100), (0.9_f64 as i32, 1.9_f64 as i32)), (100, 101));
}

#[test]
fn drag_offset_large_values() {
    assert_eq!(apply_drag_offset((1600, 20), (100.0_f64 as i32, 5.0_f64 as i32)), (1700, 25));
}
