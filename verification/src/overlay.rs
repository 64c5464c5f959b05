//! The overlay's decisions. The window toolkit runs the window; on each
//! message and each finished drag the library decides what the window
//! shows, where, and how it is styled, and what the configuration
//! remembers.

use vstd::prelude::*;

use crate::config::{AppConfig, Config, OverlayConfig};
use crate::name_map::first_position;
use crate::shortcuts::{is_render, render_rows, row_views, ShortcutRow};
use crate::state::{resolve_class, OverlayMessage};
use crate::style::{build_style, spec_stylesheet, Style};
use crate::text::opt_view;

verus! {

/// What the overlay holds between messages: the configuration and the
/// class of the active window.
pub struct OverlayState {
    pub config: Config,
    pub current_class: Option<String>,
}

/// The window's state when a message arrives, as the toolkit reports it.
pub struct WindowFacts {
    pub margin_left: i32,
    pub margin_top: i32,
    pub visible: bool,
}

/// What to do to the window: each part that is set is applied, in the
/// order of the fields; each part that is not is left as it is.
pub struct WindowUpdate {
    /// Move the window to the monitor with this connector.
    pub monitor: Option<String>,
    pub margin_left: Option<i32>,
    pub margin_top: Option<i32>,
    /// The application name in the title bar.
    pub title: Option<String>,
    /// The rows of the shortcut list, replacing the old ones.
    pub rows: Option<Vec<ShortcutRow>>,
    /// The stylesheet, replacing the old one.
    pub style: Option<Style>,
    pub visible: Option<bool>,
}

/// The application configured for `class`, if any.
pub open spec fn shown_app(config: Config, class: Option<Seq<char>>) -> Option<AppConfig> {
    match class {
        Some(c) => config.apps.spec_get(c),
        None => None,
    }
}

/// Where the overlay stands for `app`: the application's own position,
/// else the overlay's.
pub open spec fn placement(config: Config, app: Option<AppConfig>) -> (i32, i32) {
    match app {
        Some(a) => match a.position {
            Some(p) => (p[0], p[1]),
            None => (config.overlay.position[0], config.overlay.position[1]),
        },
        None => (config.overlay.position[0], config.overlay.position[1]),
    }
}

/// The stylesheet for `app` under `config`.
pub open spec fn app_stylesheet(config: Config, app: Option<AppConfig>) -> Seq<char> {
    match app {
        Some(a) => spec_stylesheet(&config, opt_view(a.bg), opt_view(a.text)),
        None => spec_stylesheet(&config, None, None),
    }
}

/// `u` shows `app`: placed, titled, listed, styled and visible.
pub open spec fn shows(u: WindowUpdate, config: Config, app: AppConfig) -> bool {
    &&& u.margin_left == Some(placement(config, Some(app)).0)
    &&& u.margin_top == Some(placement(config, Some(app)).1)
    &&& u.title matches Some(t) && t@ == app.name@
    &&& u.rows matches Some(r) && is_render(app.shortcuts, row_views(r@))
    &&& u.style matches Some(s) && s.css@ == app_stylesheet(config, Some(app))
    &&& u.visible == Some(true)
}

/// `u` hides the window and changes nothing else about it.
pub open spec fn hides(u: WindowUpdate) -> bool {
    &&& u.margin_left is None
    &&& u.margin_top is None
    &&& u.title is None
    &&& u.rows is None
    &&& u.style is None
    &&& u.visible == Some(false)
}

/// `after` is `before` with the dragged-to position `pos` remembered: for
/// the shown application when one is configured for the current class,
/// else for the overlay.
pub open spec fn remembers(before: OverlayState, after: OverlayState, pos: [i32; 2]) -> bool {
    let entries = before.config.apps.entries();
    let i = match before.current_class {
        Some(c) => first_position(entries, c@) as int,
        None => entries.len() as int,
    };
    &&& after.current_class == before.current_class
    &&& if i < entries.len() {
        &&& after.config.overlay == before.config.overlay
        &&& after.config.apps.entries() == entries.update(
            i,
            (entries[i].0, AppConfig { position: Some(pos), ..entries[i].1 }),
        )
    } else {
        &&& after.config.apps == before.config.apps
        &&& after.config.overlay == OverlayConfig { position: pos, ..before.config.overlay }
    }
}

/// `base + offset * scale`, but not below 0.
pub open spec fn dragged(base: i32, offset: i32, scale: i32) -> int {
    let v = base + offset * scale;
    if v < 0 {
        0
    } else {
        v
    }
}

/// Whether `base + offset * scale` fits in an `i32`.
pub open spec fn drag_fits(base: i32, offset: i32, scale: i32) -> bool {
    &&& i32::MIN <= offset * scale <= i32::MAX
    &&& i32::MIN <= base + offset * scale <= i32::MAX
}

/// The overlay's position after a drag by `offset` from `base`, with
/// neither coordinate below 0.
pub fn apply_drag_offset(base: (i32, i32), offset: (i32, i32)) -> (r: (i32, i32))
    requires
        drag_fits(base.0, offset.0, 1),
        drag_fits(base.1, offset.1, 1),
    ensures
        r.0 == dragged(base.0, offset.0, 1),
        r.1 == dragged(base.1, offset.1, 1),
        r.0 >= 0 && r.1 >= 0,
        base.0 + offset.0 >= 0 ==> r.0 == base.0 + offset.0,
        base.1 + offset.1 >= 0 ==> r.1 == base.1 + offset.1,
        base.0 + offset.0 < 0 ==> r.0 == 0,
        base.1 + offset.1 < 0 ==> r.1 == 0,
{
    let x = base.0 + offset.0;
    let y = base.1 + offset.1;
    (if x < 0 {
        0
    } else {
        x
    }, if y < 0 {
        0
    } else {
        y
    })
}

/// The overlay's position after a drag: the drag's offset, in logical
/// pixels, counts `scale` buffer pixels each; neither coordinate goes below 0.
pub fn drag_position(base: (i32, i32), offset: (i32, i32), scale: i32) -> (r: [i32; 2])
    requires
        drag_fits(base.0, offset.0, scale),
        drag_fits(base.1, offset.1, scale),
    ensures
        r[0] == dragged(base.0, offset.0, scale),
        r[1] == dragged(base.1, offset.1, scale),
        r[0] >= 0 && r[1] >= 0,
        base.0 + offset.0 * scale >= 0 ==> r[0] == base.0 + offset.0 * scale,
        base.1 + offset.1 * scale >= 0 ==> r[1] == base.1 + offset.1 * scale,
        base.0 + offset.0 * scale < 0 ==> r[0] == 0,
        base.1 + offset.1 * scale < 0 ==> r[1] == 0,
{
    let x = base.0 + offset.0 * scale;
    let y = base.1 + offset.1 * scale;
    [if x < 0 {
        0
    } else {
        x
    }, if y < 0 {
        0
    } else {
        y
    }]
}

/// An update that changes nothing.
fn no_update() -> (u: WindowUpdate)
    ensures
        u.monitor is None,
        u.margin_left is None,
        u.margin_top is None,
        u.title is None,
        u.rows is None,
        u.style is None,
        u.visible is None,
{
    WindowUpdate {
        monitor: None,
        margin_left: None,
        margin_top: None,
        title: None,
        rows: None,
        style: None,
        visible: None,
    }
}

/// The application configured for an optional class.
fn app_for<'a>(config: &'a Config, class: &Option<String>) -> (r: Option<&'a AppConfig>)
    ensures
        match r {
            Some(a) => shown_app(*config, opt_view(*class)) == Some(*a),
            None => shown_app(*config, opt_view(*class)) is None,
        },
{
    match class {
        Some(c) => resolve_class(c.as_str(), &config.apps),
        None => None,
    }
}

impl OverlayState {
    /// The state the overlay starts in, and what the new window is given:
    /// the overlay's position and stylesheet, hidden until a configured
    /// application is active.
    pub fn new(config: Config) -> (r: (OverlayState, WindowUpdate))
        ensures
            r.0.config == config,
            r.0.current_class is None,
            r.1.monitor is None,
            r.1.margin_left == Some(config.overlay.position[0]),
            r.1.margin_top == Some(config.overlay.position[1]),
            r.1.title is None,
            r.1.rows is None,
            r.1.style matches Some(s) && s.css@ == app_stylesheet(config, None),
            r.1.visible == Some(false),
    {
        let mut u = no_update();
        u.margin_left = Some(config.overlay.position[0]);
        u.margin_top = Some(config.overlay.position[1]);
        u.style = Some(build_style(&config, None, None));
        u.visible = Some(false);
        (OverlayState { config, current_class: None }, u)
    }

    /// Decides what a message does to the window and to the state.
    ///
    /// When the active window changes, the window moves to its monitor; if
    /// an application is configured for the class, the window shows it
    /// (placed, titled, listed, styled); otherwise it hides. The class is
    /// remembered either way.
    ///
    /// When the configuration is reloaded, the window is re-placed (only
    /// the margins that differ from the present ones are set) and
    /// restyled for the current class; a visible window showing an
    /// application gets its title and list again. The new configuration
    /// replaces the old.
    pub fn handle_message(&mut self, msg: OverlayMessage, window: WindowFacts) -> (u: WindowUpdate)
        ensures
            match msg {
                OverlayMessage::ActiveWindowChanged(class, monitor) => {
                    &&& final(self).config == old(self).config
                    &&& final(self).current_class == class
                    &&& u.monitor == monitor
                    &&& match shown_app(old(self).config, opt_view(class)) {
                        Some(app) => shows(u, old(self).config, app),
                        None => hides(u),
                    }
                    &&& match shown_app(old(self).config, opt_view(class)) {
                        Some(app) => match app.position {
                            Some(p) => u.margin_left == Some(p[0]) && u.margin_top == Some(p[1]),
                            None => u.margin_left == Some(old(self).config.overlay.position[0])
                                && u.margin_top == Some(old(self).config.overlay.position[1]),
                        },
                        None => true,
                    }
                },
                OverlayMessage::ConfigReloaded(new_config) => {
                    let app = shown_app(new_config, opt_view(old(self).current_class));
                    let pos = placement(new_config, app);
                    &&& final(self).config == new_config
                    &&& final(self).current_class == old(self).current_class
                    &&& u.monitor is None
                    &&& u.margin_left == (if pos.0 != window.margin_left {
                        Some(pos.0)
                    } else {
                        None
                    })
                    &&& u.margin_top == (if pos.1 != window.margin_top {
                        Some(pos.1)
                    } else {
                        None
                    })
                    &&& u.style matches Some(s) && s.css@ == app_stylesheet(new_config, app)
                    &&& u.visible is None
                    &&& (match app {
                        Some(a) => a.position is None,
                        None => true,
                    }) ==> {
                        &&& u.margin_left == (if new_config.overlay.position[0] != window.margin_left {
                            Some(new_config.overlay.position[0])
                        } else {
                            None
                        })
                        &&& u.margin_top == (if new_config.overlay.position[1] != window.margin_top {
                            Some(new_config.overlay.position[1])
                        } else {
                            None
                        })
                    }
                    &&& match app {
                        Some(a) => match a.position {
                            Some(p) => {
                                &&& u.margin_left == (if p[0] != window.margin_left {
                                    Some(p[0])
                                } else {
                                    None
                                })
                                &&& u.margin_top == (if p[1] != window.margin_top {
                                    Some(p[1])
                                } else {
                                    None
                                })
                            },
                            None => true,
                        },
                        None => true,
                    }
                    &&& if window.visible && app is Some {
                        &&& u.title matches Some(t) && t@ == app->0.name@
                        &&& u.rows matches Some(r) && is_render(app->0.shortcuts, row_views(r@))
                    } else {
                        u.title is None && u.rows is None
                    }
                },
            },
    {
        let mut u = no_update();
        match msg {
            OverlayMessage::ActiveWindowChanged(class, monitor) => {
                u.monitor = monitor;
                match app_for(&self.config, &class) {
                    Some(app) => {
                        let (x, y) = match app.position {
                            Some(p) => (p[0], p[1]),
                            None => (self.config.overlay.position[0], self.config.overlay.position[1]),
                        };
                        u.margin_left = Some(x);
                        u.margin_top = Some(y);
                        u.title = Some(app.name.clone());
                        u.rows = Some(render_rows(&app.shortcuts));
                        u.style = Some(build_style(&self.config, app.bg.as_ref(), app.text.as_ref()));
                        u.visible = Some(true);
                    },
                    None => {
                        u.visible = Some(false);
                    },
                }
                self.current_class = class;
            },
            OverlayMessage::ConfigReloaded(new_config) => {
                let app = app_for(&new_config, &self.current_class);
                let (x, y) = match app {
                    Some(a) => match a.position {
                        Some(p) => (p[0], p[1]),
                        None => (new_config.overlay.position[0], new_config.overlay.position[1]),
                    },
                    None => (new_config.overlay.position[0], new_config.overlay.position[1]),
                };
                if x != window.margin_left {
                    u.margin_left = Some(x);
                }
                if y != window.margin_top {
                    u.margin_top = Some(y);
                }
                match app {
                    Some(a) => {
                        u.style = Some(build_style(&new_config, a.bg.as_ref(), a.text.as_ref()));
                        if window.visible {
                            u.title = Some(a.name.clone());
                            u.rows = Some(render_rows(&a.shortcuts));
                        }
                    },
                    None => {
                        u.style = Some(build_style(&new_config, None, None));
                    },
                }
                self.config = new_config;
            },
        }
        u
    }

    /// A drag of the title bar ended at `offset` from `base`: the window
    /// goes to the dragged-to position (see `drag_position`), which the
    /// configuration remembers for the shown application, or for the
    /// overlay when no application is configured for the current class.
    /// The caller saves the configuration afterwards.
    pub fn end_drag(&mut self, base: (i32, i32), offset: (i32, i32), scale: i32) -> (r: [i32; 2])
        requires
            drag_fits(base.0, offset.0, scale),
            drag_fits(base.1, offset.1, scale),
        ensures
            r[0] == dragged(base.0, offset.0, scale),
            r[1] == dragged(base.1, offset.1, scale),
            r[0] >= 0 && r[1] >= 0,
            base.0 + offset.0 * scale >= 0 ==> r[0] == base.0 + offset.0 * scale,
            base.1 + offset.1 * scale >= 0 ==> r[1] == base.1 + offset.1 * scale,
            base.0 + offset.0 * scale < 0 ==> r[0] == 0,
            base.1 + offset.1 * scale < 0 ==> r[1] == 0,
            remembers(*old(self), *final(self), r),
    {
        let pos = drag_position(base, offset, scale);
        let found = match &self.current_class {
            Some(c) => self.config.apps.find(c.as_str()),
            None => None,
        };
        match found {
            Some(i) => {
                proof {
                    use_type_invariant(&self.config.apps);
                }
                let ghost before = self.config.apps.entries();
                let (name, mut app) = self.config.apps.remove_at(i);
                app.position = Some(pos);
                proof {
                    let rest = before.remove(i as int);
                    assert forall|j: int| 0 <= j < rest.len() implies #[trigger] rest[j].0@
                        != name@ by {
                        if j < i {
                            assert(rest[j] == before[j]);
                        } else {
                            assert(rest[j] == before[j + 1]);
                        }
                    }
                }
                self.config.apps.insert_at(i, name, app);
                assert(self.config.apps.entries() =~= before.update(
                    i as int,
                    (before[i as int].0, AppConfig { position: Some(pos), ..before[i as int].1 }),
                ));
            },
            None => {
                self.config.overlay.position = pos;
            },
        }
        pos
    }
}

/// The position of the first monitor whose connector is `name`, among the
/// connectors of the display's monitors (none where a monitor reports none).
pub fn find_connector(connectors: &Vec<Option<String>>, name: &str) -> (r: Option<usize>)
    ensures
        match r {
            Some(i) => i < connectors@.len() && opt_view(connectors@[i as int]) == Some(name@)
                && forall|j: int|
                0 <= j < i ==> opt_view(#[trigger] connectors@[j]) != Some(name@),
            None => forall|j: int|
                0 <= j < connectors@.len() ==> opt_view(#[trigger] connectors@[j]) != Some(name@),
        },
{
    let wanted = name.to_owned();
    let n = connectors.len();
    let mut i: usize = 0;
    while i < n
        invariant
            n == connectors@.len(),
            i <= n,
            wanted@ == name@,
            forall|j: int| 0 <= j < i ==> opt_view(#[trigger] connectors@[j]) != Some(name@),
        decreases n - i,
    {
        match &connectors[i] {
            Some(c) => {
                if *c == wanted {
                    return Some(i);
                }
            },
            None => {},
        }
        i = i + 1;
    }
    None
}

/// Where the overlay stands for an application: at the application's own
/// position when it has one, else at the overlay's position (x as x, y as
/// y); with no application, at the overlay's position.
pub proof fn lemma_placement(config: Config, app: Option<AppConfig>)
    ensures
        match app {
            Some(a) => match a.position {
                Some(p) => placement(config, app) == (p[0], p[1]),
                None => true,
            },
            None => true,
        },
        (match app {
            Some(a) => a.position is None,
            None => true,
        }) ==> placement(config, app).0 == config.overlay.position[0] && placement(config, app).1
            == config.overlay.position[1],
{
}

/// A drag never leaves the overlay at a negative position, and moves it by
/// the scaled offset wherever that stays at or beyond 0.
pub proof fn lemma_dragged(base: i32, offset: i32, scale: i32)
    ensures
        dragged(base, offset, scale) >= 0,
        base + offset * scale >= 0 ==> dragged(base, offset, scale) == base + offset * scale,
        base + offset * scale < 0 ==> dragged(base, offset, scale) == 0,
{
}

/// A position dragged to is where the overlay shows the application it was
/// dragged for, the next time that application's window is active; when no
/// application was configured for the class, it becomes the overlay's own
/// position.
pub proof fn lemma_drag_is_remembered(
    before: OverlayState,
    after: OverlayState,
    pos: [i32; 2],
    class: Seq<char>,
)
    requires
        remembers(before, after, pos),
        opt_view(before.current_class) == Some(class),
    ensures
        placement(after.config, shown_app(after.config, Some(class))) == (pos[0], pos[1]),
        shown_app(after.config, Some(class)) is Some <==> shown_app(
            before.config,
            Some(class),
        ) is Some,
{
    let entries = before.config.apps.entries();
    crate::name_map::lemma_first_position(entries, class);
    let i = first_position(entries, class) as int;
    if i < entries.len() {
        let after_entries = after.config.apps.entries();
        crate::name_map::lemma_first_position(after_entries, class);
        assert forall|j: int| 0 <= j < i implies after_entries[j].0@ != class by {
            assert(after_entries[j] == entries[j]);
        }
        assert(after_entries[i].0@ == class);
        crate::name_map::lemma_scan_position(after_entries, class, i);
    }
}

} // verus!
