//! The overlay's messages and the lookup of the application a window
//! class belongs to.

use vstd::prelude::*;

use crate::config::{AppConfig, Config};
use crate::name_map::NameMap;

verus! {

/// What the background listeners tell the overlay: the active window
/// changed (its normalized class, if any, and the connector of its
/// monitor, if known), or the configuration file was reloaded. The
/// monitor's display scale, a float, travels beside the message.
pub enum OverlayMessage {
    ActiveWindowChanged(Option<String>, Option<String>),
    ConfigReloaded(Config),
}

/// The application configured for the window class `class`: the lookup is
/// exact and case-sensitive.
pub fn resolve_class<'a>(class: &str, apps: &'a NameMap<AppConfig>) -> (r: Option<&'a AppConfig>)
    ensures
        match r {
            Some(a) => apps.spec_get(class@) == Some(*a),
            None => apps.spec_get(class@) is None,
        },
{
    apps.get(class)
}

} // verus!
