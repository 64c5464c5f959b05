use hyprcut::config::{Shortcut, ShortcutList};
use hyprcut::name_map::NameMap;
use hyprcut::shortcuts::{group_header_text, render_rows, ShortcutRow};

fn sc(k: &str, l: &str) -> Shortcut {
    Shortcut { keys: k.to_string(), label: l.to_string() }
}

fn describe(rows: &[ShortcutRow]) -> Vec<String> {
    rows.iter()
        .map(|r| match r {
            ShortcutRow::Header(h) => format!("H:{h}"),
            ShortcutRow::Entry(k, l) => format!("E:{k}={l}"),
        })
        .collect()
}

#[test]
fn header_text_has_rule_and_name() {
    assert_eq!(group_header_text("navigation"), "── navigation ");
}

#[test]
fn flat_rows_keep_order() {
    let rows = render_rows(&ShortcutList::Flat(vec![sc("b", "2"), sc("a", "1")]));
    assert_eq!(describe(&rows), vec!["E:b=2", "E:a=1"]);
}

#[test]
fn grouped_rows_sorted_by_group_name() {
    let mut g = NameMap::new();
    g.insert("tabs".to_string(), vec![sc("Ctrl+T", "New tab"), sc("Ctrl+W", "Close tab")]);
    g.insert("edit".to_string(), vec![sc(":w", "Save")]);
    g.insert("Nav".to_string(), vec![]);
    let rows = render_rows(&ShortcutList::Grouped(g));
    assert_eq!(
        describe(&rows),
        vec![
            "H:── Nav ",
            "H:── edit ",
            "E::w=Save",
            "H:── tabs ",
            "E:Ctrl+T=New tab",
            "E:Ctrl+W=Close tab",
        ]
    );
}

#[test]
fn empty_rows() {
    assert!(render_rows(&ShortcutList::Empty).is_empty());
}
