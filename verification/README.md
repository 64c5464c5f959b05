# hyprcut

A keyboard-shortcut overlay for Hyprland: when a window becomes active, a
small layer-shell window lists the shortcuts configured for its application
(keyed by window class in `~/.config/hyprcut/config.toml`). The overlay can be
dragged; the position is saved per application.

## Layout

- `src/` — the verified library (Verus).
  - `config.rs` — the configuration model, the config-file path, and the
    lowercasing of application names on load.
  - `name_map.rs` — an insertion-ordered map from names to values whose names
    never repeat (its type invariant).
  - `text.rs` — white space, trimming, lowercasing, decimal rendering.
  - `ipc.rs` — window-class normalization and monitor lookup for Hyprland
    events.
  - `state.rs` — the overlay's messages and the class-to-application lookup.
  - `style.rs` — which colours are safe to put into CSS, and the stylesheet.
  - `order.rs` — the order of names and a stable sort by name.
  - `shortcuts.rs` — the rows the overlay lists.
  - `overlay.rs` — the overlay's state machine: what each message and each
    finished drag do to the window and the configuration.
  - `watch.rs` — the config-file watcher's decisions (reload, or skip the
    overlay's own save once).
  - `document.rs` — the TOML document the configuration is saved as, built
    with `toml_edit`.
- `app/` — the program: GTK window, Hyprland listener, file I/O and watching.
- `tests/` — tests of the library.
