[package]
name = "hyprcut"
version = "0.1.0"
edition = "2021"
publish = false

[dependencies]
toml_edit = "*"
toml = "*"
serde = { version = "1", features = ["derive"] }
anyhow = "1"
async-channel = "*"
gtk4 = "*"
gdk4 = "*"
glib = "*"
gtk4-layer-shell = "*"
hyprland = "0.4.0-beta.1"
notify-debouncer-mini = "*"
