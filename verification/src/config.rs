//! The configuration model: the overlay's defaults and, per application
//! (keyed by window class), its name, colours, position and shortcuts.

use vstd::prelude::*;

use crate::name_map::NameMap;
use crate::ipc::spec_normalize_class;
use crate::text::{is_white_space, lemma_untrimmed, lowercase, to_lowercase};

verus! {

/// One keyboard shortcut: the keys to press and what they do.
pub struct Shortcut {
    pub keys: String,
    pub label: String,
}

/// The shortcuts of an application: a flat list, lists under group names,
/// or none.
pub enum ShortcutList {
    Flat(Vec<Shortcut>),
    Grouped(NameMap<Vec<Shortcut>>),
    Empty,
}

/// What the overlay shows and how, for one application.
pub struct AppConfig {
    pub name: String,
    pub shortcuts: ShortcutList,
    pub bg: Option<String>,
    pub text: Option<String>,
    pub position: Option<[i32; 2]>,
}

/// The overlay's own settings. The opacity is a float that the library
/// carries through unread, as its IEEE 754 bit pattern.
pub struct OverlayConfig {
    pub position: [i32; 2],
    pub opacity_bits: u64,
    pub font_size: u32,
    pub bg: Option<String>,
    pub text: Option<String>,
    pub border_color: Option<String>,
    pub font_family: Option<String>,
}

/// The whole configuration.
pub struct Config {
    pub overlay: OverlayConfig,
    pub apps: NameMap<AppConfig>,
}

/// The path of the configuration file under the home directory `home`, as
/// `PathBuf::from(home).join(".config/hyprcut/config.toml")` forms it: a
/// separator goes between them unless `home` is empty or already ends in one.
pub open spec fn spec_config_path(home: Seq<char>) -> Seq<char> {
    if home.len() == 0 || home.last() == '/' {
        home + ".config/hyprcut/config.toml"@
    } else {
        home + "/"@ + ".config/hyprcut/config.toml"@
    }
}

/// The path of the configuration file under the home directory `home`.
pub fn config_path(home: &str) -> (r: String)
    ensures
        r@ == spec_config_path(home@),
{
    let mut path = home.to_owned();
    let n = home.unicode_len();
    if n > 0 && home.get_char(n - 1) != '/' {
        path.append("/");
    }
    path.append(".config/hyprcut/config.toml");
    path
}

/// The value that the last pair of `s` whose name lowercases to `q` holds.
pub open spec fn last_lowercased<V>(s: Seq<(String, V)>, q: Seq<char>) -> Option<V>
    decreases s.len(),
{
    if s.len() == 0 {
        None
    } else if lowercase(s.last().0@) == q {
        Some(s.last().1)
    } else {
        last_lowercased(s.drop_last(), q)
    }
}

/// A window finds the application configured under a name that lowercases
/// like its class, whatever the case of either: the normalized class is the
/// key under which the lowercased names hold that application (the last one
/// so named, where several are), provided the lowercased name has no white
/// space around it.
pub proof fn lemma_class_finds_app<V>(apps: Seq<(String, V)>, class: Seq<char>, i: int)
    requires
        0 <= i < apps.len(),
        lowercase(class) == lowercase(apps[i].0@),
        lowercase(class).len() > 0,
        !is_white_space(lowercase(class)[0]),
        !is_white_space(lowercase(class).last()),
        forall|j: int| i < j < apps.len() ==> lowercase(#[trigger] apps[j].0@) != lowercase(class),
    ensures
        last_lowercased(apps, spec_normalize_class(class)) == Some(apps[i].1),
    decreases apps.len(),
{
    lemma_untrimmed(lowercase(class));
    if i < apps.len() - 1 {
        assert(lowercase(apps.last().0@) != lowercase(class));
        assert forall|j: int| i < j < apps.drop_last().len() implies lowercase(
            #[trigger] apps.drop_last()[j].0@,
        ) != lowercase(class) by {
            assert(apps.drop_last()[j] == apps[j]);
        }
        lemma_class_finds_app(apps.drop_last(), class, i);
    }
}

/// Rekeys the applications by their lowercased names, so that they match
/// the lowercased window classes. Where two names lowercase alike, the later
/// pair wins.
pub fn lowercase_app_names(apps: NameMap<AppConfig>) -> (r: NameMap<AppConfig>)
    ensures
        r.wf(),
        forall|q: Seq<char>| #[trigger]
            r.spec_get(q) == last_lowercased(apps.entries(), q),
{
    let ghost orig = apps.entries();
    let mut pairs = apps.into_pairs();
    let mut out: NameMap<AppConfig> = NameMap::new();
    let n = pairs.len();
    let mut i: usize = 0;
    while i < n
        invariant
            n == orig.len(),
            i <= n,
            pairs@ == orig.skip(i as int),
            out.wf(),
            forall|q: Seq<char>| #[trigger] out.spec_get(q) == last_lowercased(orig.take(i as int), q),
        decreases n - i,
    {
        let (name, app) = pairs.remove(0);
        let key = to_lowercase(name.as_str());
        proof {
            assert(orig[i as int] == (name, app));
            assert(orig.take(i + 1).drop_last() =~= orig.take(i as int));
            assert(orig.skip(i as int).drop_first() =~= orig.skip(i + 1));
        }
        out.insert(key, app);
        i = i + 1;
        proof {
            assert forall|q: Seq<char>| #[trigger]
                out.spec_get(q) == last_lowercased(orig.take(i as int), q) by {
                assert(orig.take(i as int).last() == orig[i - 1]);
            }
        }
    }
    proof {
        assert(orig.take(n as int) =~= orig);
    }
    out
}

} // verus!
