use hyprcut::config::{Config, OverlayConfig};
use hyprcut::name_map::NameMap;
use hyprcut::style::{build_style, is_safe_css_color};

fn config(bg: Option<&str>, text: Option<&str>, border: Option<&str>, font: Option<&str>, size: u32) -> Config {
    Config {
        overlay: OverlayConfig {
            position: [100, 50],
            opacity_bits: 0.75_f64.to_bits(),
            font_size: size,
            bg: bg.map(|s| s.to_string()),
            text: text.map(|s| s.to_string()),
            border_color: border.map(|s| s.to_string()),
            font_family: font.map(|s| s.to_string()),
        },
        apps: NameMap::new(),
    }
}

fn expected(bg: &str, border_css: &str, text: &str, font_size: u32, font: &str, text_muted: &str, small: u32) -> String {
    format!(
        r#"
window, .background {{
    background-color: transparent;
}}
#hyprcut-overlay {{
    background-color: {bg};
    {border_css}
    padding: 4px;
}}
#hyprcut-titlebar {{
    padding: 2px 4px;
}}
#hyprcut-app-name {{
    color: {text};
    font-weight: bold;
    font-size: {font_size}px;
    font-family: {font};
}}
#hyprcut-shortcuts {{
    padding: 2px 4px;
}}
#hyprcut-keys {{
    color: {text};
    font-weight: bold;
    font-size: {font_size}px;
    font-family: {font};
    min-width: 140px;
}}
#hyprcut-label {{
    color: {text};
    font-size: {font_size}px;
}}
#hyprcut-group-header {{
    color: {text_muted};
    font-size: {small}px;
    margin-top: 4px;
}}
"#,
    )
}

#[test]
fn safe_colors_accepted() {
    assert!(is_safe_css_color("transparent"));
    assert!(is_safe_css_color("  none "));
    assert!(is_safe_css_color("#fff"));
    assert!(is_safe_css_color("#ffff"));
    assert!(is_safe_css_color("#1e1e2e"));
    assert!(is_safe_css_color("#1E1E2ECC"));
    assert!(is_safe_css_color("rgba(0, 0, 0, 0.8)"));
    assert!(is_safe_css_color("rgb(<1>, 2, 3)"));
    assert!(is_safe_css_color("red"));
}

#[test]
fn unsafe_colors_refused() {
    assert!(!is_safe_css_color("#ff"));
    assert!(!is_safe_css_color("#fffff"));
    assert!(!is_safe_css_color("#ggg"));
    assert!(!is_safe_css_color("#ééé"));
    assert!(!is_safe_css_color("red; } * { color: blue"));
    assert!(!is_safe_css_color("rgba(0,0,0,1);"));
    assert!(!is_safe_css_color("rgb(1,2,3)\\"));
    assert!(!is_safe_css_color("<script>"));
    assert!(!is_safe_css_color("\"quoted\""));
    assert!(!is_safe_css_color("it's"));
}

#[test]
fn stylesheet_with_defaults() {
    let c = config(None, None, None, None, 14);
    let s = build_style(&c, None, None);
    assert_eq!(
        s.css,
        expected("transparent", "border: none;", "rgba(255, 255, 255, 0.75)", 14, "monospace", "rgba(255, 255, 255, 0.45)", 12)
    );
    assert!(!s.bg_refused);
    assert!(!s.text_refused);
}

#[test]
fn stylesheet_prefers_app_colors_and_sets_border() {
    let c = config(Some("#000000"), Some("#eeeeee"), Some("#ff0000"), Some("Fira Code"), 1);
    let bg = "#111111".to_string();
    let s = build_style(&c, Some(&bg), None);
    assert_eq!(
        s.css,
        expected("#111111", "border: 1px solid #ff0000;", "#eeeeee", 1, "Fira Code", "#eeeeee", 0)
    );
}

#[test]
fn stylesheet_replaces_unsafe_colors() {
    let c = config(Some("red;}"), Some("blue{"), Some("x;y"), None, 100);
    let s = build_style(&c, None, None);
    assert_eq!(
        s.css,
        expected("transparent", "border: none;", "rgba(255, 255, 255, 0.75)", 100, "monospace", "rgba(255, 255, 255, 0.45)", 98)
    );
    assert!(s.bg_refused);
    assert!(s.text_refused);
}

#[test]
fn stylesheet_large_font_size() {
    let c = config(None, None, None, None, 4294967295);
    let s = build_style(&c, None, None);
    assert!(s.css.contains("font-size: 4294967295px;"));
    assert!(s.css.contains("font-size: 4294967293px;"));
}
