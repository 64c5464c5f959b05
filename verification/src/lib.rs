//! Verified core of hyprcut: a per-application keyboard-shortcut overlay
//! for Hyprland. The library holds the configuration model, the rules that
//! pick what the overlay shows, the CSS it styles itself with, the TOML
//! document the configuration is saved as, and the decisions taken on
//! window-manager and file-watcher events.

pub mod text;
pub mod name_map;
pub mod ipc;
pub mod config;
pub mod style;
pub mod order;
pub mod shortcuts;
pub mod state;
pub mod overlay;
pub mod watch;
pub mod document;
