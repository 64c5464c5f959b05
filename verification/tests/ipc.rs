use hyprcut::ipc::normalize_class;

#[test]
fn normalize_class_lowercases_and_trims() {
    assert_eq!(normalize_class("  Firefox  "), "firefox");
}

#[test]
fn normalize_class_empty_string() {
    assert_eq!(normalize_class(""), "");
}

#[test]
fn normalize_class_already_lowercase() {
    assert_eq!(normalize_class("kitty"), "kitty");
}
