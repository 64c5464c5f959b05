//! The overlay's stylesheet: which colours from the configuration are safe
//! to put into CSS, and the CSS text built from them.

use vstd::prelude::*;

use crate::config::Config;
use crate::text::{
    chars_of, decimal, lemma_trimmed, lemma_untrimmed, opt_view, push_decimal, trim, trimmed,
};

verus! {

/// An ASCII hexadecimal digit.
pub open spec fn is_hex_digit(c: char) -> bool {
    ||| ('0' as u32) <= (c as u32) <= ('9' as u32)
    ||| ('a' as u32) <= (c as u32) <= ('f' as u32)
    ||| ('A' as u32) <= (c as u32) <= ('F' as u32)
}

/// A character that could end a CSS value or declaration block, or open a
/// string or an escape: never allowed in a colour.
pub open spec fn breaks_css_value(c: char) -> bool {
    c == ';' || c == '{' || c == '}' || c == '"' || c == '\'' || c == '\\'
}

/// A character not allowed in a colour given by name: those that break a
/// value, and angle brackets.
pub open spec fn breaks_css_name(c: char) -> bool {
    breaks_css_value(c) || c == '<' || c == '>'
}

/// Whether `s` is a colour that may be written into the stylesheet. After
/// trimming it must be `transparent` or `none`; or `#` and 3, 4, 6 or 8
/// hexadecimal digits; or an `rgb(`/`rgba(` form without characters that
/// break a value; or anything else without characters that break a name.
/// (The original counts bytes where this counts characters; the two agree,
/// since a `#` form passes only when all its characters are ASCII.)
pub open spec fn spec_is_safe_css_color(s: Seq<char>) -> bool {
    let t = trimmed(s);
    if t == "transparent"@ || t == "none"@ {
        true
    } else if t.len() > 0 && t[0] == '#' {
        &&& (t.len() == 4 || t.len() == 5 || t.len() == 7 || t.len() == 9)
        &&& forall|i: int| 1 <= i < t.len() ==> is_hex_digit(#[trigger] t[i])
    } else if "rgb("@.is_prefix_of(t) || "rgba("@.is_prefix_of(t) {
        forall|i: int| 0 <= i < t.len() ==> !breaks_css_value(#[trigger] t[i])
    } else {
        forall|i: int| 0 <= i < t.len() ==> !breaks_css_name(#[trigger] t[i])
    }
}

fn char_is_hex_digit(c: char) -> (b: bool)
    ensures
        b == is_hex_digit(c),
{
    let u = c as u32;
    (('0' as u32) <= u && u <= ('9' as u32)) || (('a' as u32) <= u && u <= ('f' as u32)) || ((
    'A' as u32) <= u && u <= ('F' as u32))
}

fn char_breaks_css_value(c: char) -> (b: bool)
    ensures
        b == breaks_css_value(c),
{
    c == ';' || c == '{' || c == '}' || c == '"' || c == '\'' || c == '\\'
}

/// Whether the characters `p` begin `v`.
fn has_prefix(v: &Vec<char>, p: &str) -> (b: bool)
    ensures
        b == p@.is_prefix_of(v@),
{
    let pv = chars_of(p);
    if pv.len() > v.len() {
        return false;
    }
    let mut i: usize = 0;
    while i < pv.len()
        invariant
            pv@ == p@,
            pv@.len() <= v@.len(),
            i <= pv@.len(),
            forall|j: int| 0 <= j < i ==> pv@[j] == v@[j],
        decreases pv@.len() - i,
    {
        if pv[i] != v[i] {
            return false;
        }
        i = i + 1;
    }
    assert(v@.take(pv@.len() as int) =~= pv@);
    true
}

/// Whether `s` is a colour that may be written into the stylesheet.
pub fn is_safe_css_color(s: &str) -> (b: bool)
    ensures
        b == spec_is_safe_css_color(s@),
{
    let t = trim(s);
    if t == String::from_str("transparent") || t == String::from_str("none") {
        return true;
    }
    let v = chars_of(t.as_str());
    let n = v.len();
    if n > 0 && v[0] == '#' {
        if !(n == 4 || n == 5 || n == 7 || n == 9) {
            return false;
        }
        let mut i: usize = 1;
        while i < n
            invariant
                v@ == trimmed(s@),
                n == v@.len(),
                1 <= i <= n,
                trimmed(s@) != "transparent"@,
                trimmed(s@) != "none"@,
                v@[0] == '#',
                n == 4 || n == 5 || n == 7 || n == 9,
                forall|j: int| 1 <= j < i ==> is_hex_digit(#[trigger] v@[j]),
            decreases n - i,
        {
            if !char_is_hex_digit(v[i]) {
                assert(!is_hex_digit(trimmed(s@)[i as int]));
                return false;
            }
            i = i + 1;
        }
        return true;
    }
    let functional = has_prefix(&v, "rgb(") || has_prefix(&v, "rgba(");
    let mut i: usize = 0;
    while i < n
        invariant
            v@ == trimmed(s@),
            n == v@.len(),
            i <= n,
            trimmed(s@) != "transparent"@,
            trimmed(s@) != "none"@,
            !(n > 0 && v@[0] == '#'),
            functional == ("rgb("@.is_prefix_of(v@) || "rgba("@.is_prefix_of(v@)),
            functional ==> forall|j: int| 0 <= j < i ==> !breaks_css_value(#[trigger] v@[j]),
            !functional ==> forall|j: int| 0 <= j < i ==> !breaks_css_name(#[trigger] v@[j]),
        decreases n - i,
    {
        let c = v[i];
        if char_breaks_css_value(c) || (!functional && (c == '<' || c == '>')) {
            assert(breaks_css_name(trimmed(s@)[i as int]));
            assert(functional ==> breaks_css_value(trimmed(s@)[i as int]));
            return false;
        }
        i = i + 1;
    }
    true
}

/// A colour judged safe holds no character that could end a CSS value or
/// block, open a string or start an escape, wherever it stands in the
/// untrimmed text.
pub proof fn lemma_safe_color_cannot_break_out(s: Seq<char>)
    requires
        spec_is_safe_css_color(s),
    ensures
        forall|i: int| 0 <= i < s.len() ==> !breaks_css_value(#[trigger] s[i]),
{
    let (a, b) = lemma_trimmed(s);
    let t = trimmed(s);
    reveal_strlit("transparent");
    reveal_strlit("none");
    assert forall|i: int| 0 <= i < s.len() implies !breaks_css_value(#[trigger] s[i]) by {
        if a <= i < b {
            assert(s[i] == t[i - a]);
            if t == "transparent"@ || t == "none"@ {
            } else if t.len() > 0 && t[0] == '#' {
                if i - a >= 1 {
                    assert(is_hex_digit(t[i - a]));
                }
            } else if "rgb("@.is_prefix_of(t) || "rgba("@.is_prefix_of(t) {
                assert(!breaks_css_value(t[i - a]));
            } else {
                assert(!breaks_css_name(t[i - a]));
            }
        }
    }
}

/// The text colour used when neither the application nor the overlay sets
/// one.
pub open spec fn default_text_color() -> Seq<char> {
    "rgba(255, 255, 255, 0.75)"@
}

/// The group-header colour used when neither the application nor the
/// overlay sets a text colour.
pub open spec fn default_muted_color() -> Seq<char> {
    "rgba(255, 255, 255, 0.45)"@
}

/// The default colours are safe, so whatever colours a configuration asks
/// for, every colour the stylesheet uses is safe.
pub proof fn lemma_stylesheet_colors_safe(c: Seq<char>)
    ensures
        spec_is_safe_css_color(safe_or(c, "transparent"@)),
        spec_is_safe_css_color(safe_or(c, default_text_color())),
        spec_is_safe_css_color(safe_or(c, default_muted_color())),
{
    reveal_strlit("transparent");
    reveal_strlit("rgba(255, 255, 255, 0.75)");
    reveal_strlit("rgba(255, 255, 255, 0.45)");
    reveal_strlit("rgba(");
    reveal_strlit("none");
    lemma_untrimmed("transparent"@);
    let t = default_text_color();
    let m = default_muted_color();
    lemma_untrimmed(t);
    lemma_untrimmed(m);
    assert(t[0] != "transparent"@[0]);
    assert(t[0] != "none"@[0]);
    assert(m[0] != "transparent"@[0]);
    assert(m[0] != "none"@[0]);
    assert("rgba("@.is_prefix_of(t)) by {
        assert(t.take(5) =~= "rgba("@);
    }
    assert("rgba("@.is_prefix_of(m)) by {
        assert(m.take(5) =~= "rgba("@);
    }
    assert forall|i: int| 0 <= i < t.len() implies !breaks_css_value(#[trigger] t[i]) by {}
    assert forall|i: int| 0 <= i < m.len() implies !breaks_css_value(#[trigger] m[i]) by {}
}

/// The first colour given: the application's, else the overlay's, else
/// the default.
pub open spec fn first_given(
    app: Option<Seq<char>>,
    overlay: Option<Seq<char>>,
    default: Seq<char>,
) -> Seq<char> {
    match app {
        Some(c) => c,
        None => match overlay {
            Some(c) => c,
            None => default,
        },
    }
}

/// `c` when it is safe, else `fallback`.
pub open spec fn safe_or(c: Seq<char>, fallback: Seq<char>) -> Seq<char> {
    if spec_is_safe_css_color(c) {
        c
    } else {
        fallback
    }
}

/// The characters of an optional borrowed string.
pub open spec fn opt_ref_view(o: Option<&String>) -> Option<Seq<char>> {
    match o {
        Some(s) => Some(s@),
        None => None,
    }
}

/// The border declaration: a one-pixel solid border in the configured
/// colour when it is safe, else none.
pub open spec fn border_declaration(color: Option<Seq<char>>) -> Seq<char> {
    match color {
        Some(c) => if spec_is_safe_css_color(c) {
            "border: 1px solid "@ + c + ";"@
        } else {
            "border: none;"@
        },
        None => "border: none;"@,
    }
}

/// `n - 2`, or 0 when `n` is below 2.
pub open spec fn minus_two(n: u32) -> u32 {
    if n >= 2 {
        (n - 2) as u32
    } else {
        0
    }
}

/// The stylesheet's first rule: the window itself stays transparent.
pub open spec fn preamble_rule() -> Seq<char> {
    "\nwindow, .background {\n    background-color: transparent;\n}\n"@
}

/// The rule for the overlay box: its background and border.
pub open spec fn overlay_rule(bg: Seq<char>, border: Seq<char>) -> Seq<char> {
    "#hyprcut-overlay {\n    background-color: "@ + bg + ";\n    "@ + border
        + "\n    padding: 4px;\n}\n"@
}

/// The rule for the title bar.
pub open spec fn titlebar_rule() -> Seq<char> {
    "#hyprcut-titlebar {\n    padding: 2px 4px;\n}\n"@
}

/// The rule for the application name in the title bar.
pub open spec fn app_name_rule(text: Seq<char>, font_size: u32, font: Seq<char>) -> Seq<char> {
    "#hyprcut-app-name {\n    color: "@ + text + ";\n    font-weight: bold;\n    font-size: "@
        + decimal(font_size as nat) + "px;\n    font-family: "@ + font + ";\n}\n"@
}

/// The rule for the shortcut list.
pub open spec fn shortcuts_rule() -> Seq<char> {
    "#hyprcut-shortcuts {\n    padding: 2px 4px;\n}\n"@
}

/// The rule for a shortcut's keys.
pub open spec fn keys_rule(text: Seq<char>, font_size: u32, font: Seq<char>) -> Seq<char> {
    "#hyprcut-keys {\n    color: "@ + text + ";\n    font-weight: bold;\n    font-size: "@
        + decimal(font_size as nat) + "px;\n    font-family: "@ + font
        + ";\n    min-width: 140px;\n}\n"@
}

/// The rule for a shortcut's label.
pub open spec fn label_rule(text: Seq<char>, font_size: u32) -> Seq<char> {
    "#hyprcut-label {\n    color: "@ + text + ";\n    font-size: "@ + decimal(font_size as nat)
        + "px;\n}\n"@
}

/// The rule for a group header.
pub open spec fn group_rule(muted: Seq<char>, font_size: u32) -> Seq<char> {
    "#hyprcut-group-header {\n    color: "@ + muted + ";\n    font-size: "@ + decimal(
        minus_two(font_size) as nat,
    ) + "px;\n    margin-top: 4px;\n}\n"@
}

/// The stylesheet, with its blanks filled.
pub open spec fn stylesheet(
    bg: Seq<char>,
    border: Seq<char>,
    text: Seq<char>,
    muted: Seq<char>,
    font: Seq<char>,
    font_size: u32,
) -> Seq<char> {
    preamble_rule() + overlay_rule(bg, border) + titlebar_rule() + app_name_rule(
        text,
        font_size,
        font,
    ) + shortcuts_rule() + keys_rule(text, font_size, font) + label_rule(text, font_size)
        + group_rule(muted, font_size)
}

/// The stylesheet for `config` with an application's colours over the
/// overlay's.
pub open spec fn spec_stylesheet(
    config: &Config,
    app_bg: Option<Seq<char>>,
    app_text: Option<Seq<char>>,
) -> Seq<char> {
    let o = config.overlay;
    let bg = safe_or(first_given(app_bg, opt_view(o.bg), "transparent"@), "transparent"@);
    let text = safe_or(
        first_given(app_text, opt_view(o.text), default_text_color()),
        default_text_color(),
    );
    let muted = safe_or(
        first_given(app_text, opt_view(o.text), default_muted_color()),
        default_muted_color(),
    );
    let font = match o.font_family {
        Some(f) => f@,
        None => "monospace"@,
    };
    stylesheet(bg, border_declaration(opt_view(o.border_color)), text, muted, font, o.font_size)
}

/// `needle` occurs in `hay`, at some position.
pub open spec fn occurs_in(needle: Seq<char>, hay: Seq<char>) -> bool {
    exists|i: int|
        0 <= i && i + needle.len() <= hay.len() && #[trigger] hay.subrange(i, i + needle.len())
            == needle
}

proof fn lemma_occurs_prefix(n: Seq<char>, y: Seq<char>)
    ensures
        occurs_in(n, n + y),
{
    let i: int = 0;
    assert((n + y).subrange(i, i + n.len()) =~= n);
}

proof fn lemma_occurs_left(n: Seq<char>, x: Seq<char>, a: Seq<char>)
    requires
        occurs_in(n, a),
    ensures
        occurs_in(n, x + a),
{
    let i = choose|i: int|
        0 <= i && i + n.len() <= a.len() && #[trigger] a.subrange(i, i + n.len()) == n;
    let j: int = x.len() + i;
    assert((x + a).subrange(j, j + n.len()) =~= a.subrange(i, i + n.len()));
}

proof fn lemma_occurs_right(n: Seq<char>, a: Seq<char>, y: Seq<char>)
    requires
        occurs_in(n, a),
    ensures
        occurs_in(n, a + y),
{
    let i = choose|i: int|
        0 <= i && i + n.len() <= a.len() && #[trigger] a.subrange(i, i + n.len()) == n;
    assert((a + y).subrange(i, i + n.len()) =~= a.subrange(i, i + n.len()));
}

/// Where each colour of a stylesheet stands: the background in the overlay
/// box's rule, the text colour in the application-name, keys and label
/// rules, the group-header colour in the group-header rule.
pub proof fn lemma_stylesheet_colors(
    bg: Seq<char>,
    border: Seq<char>,
    text: Seq<char>,
    muted: Seq<char>,
    font: Seq<char>,
    font_size: u32,
)
    ensures
        occurs_in(
            "#hyprcut-overlay {\n    background-color: "@ + bg + ";\n    "@,
            stylesheet(bg, border, text, muted, font, font_size),
        ),
        occurs_in(
            "#hyprcut-app-name {\n    color: "@ + text + ";\n    font-weight: bold;\n    font-size: "@,
            stylesheet(bg, border, text, muted, font, font_size),
        ),
        occurs_in(
            "#hyprcut-keys {\n    color: "@ + text + ";\n    font-weight: bold;\n    font-size: "@,
            stylesheet(bg, border, text, muted, font, font_size),
        ),
        occurs_in(
            "#hyprcut-label {\n    color: "@ + text + ";\n    font-size: "@,
            stylesheet(bg, border, text, muted, font, font_size),
        ),
        occurs_in(
            "#hyprcut-group-header {\n    color: "@ + muted + ";\n    font-size: "@,
            stylesheet(bg, border, text, muted, font, font_size),
        ),
{
    let fs = decimal(font_size as nat);
    let pre = preamble_rule();
    let ov = overlay_rule(bg, border);
    let tb = titlebar_rule();
    let an = app_name_rule(text, font_size, font);
    let sr = shortcuts_rule();
    let kr = keys_rule(text, font_size, font);
    let lr = label_rule(text, font_size);
    let gr = group_rule(muted, font_size);
    let n_ov = "#hyprcut-overlay {\n    background-color: "@ + bg + ";\n    "@;
    assert(ov =~= n_ov + (border + "\n    padding: 4px;\n}\n"@));
    lemma_occurs_prefix(n_ov, border + "\n    padding: 4px;\n}\n"@);
    lemma_occurs_left(n_ov, pre, ov);
    lemma_occurs_right(n_ov, pre + ov, tb);
    lemma_occurs_right(n_ov, pre + ov + tb, an);
    lemma_occurs_right(n_ov, pre + ov + tb + an, sr);
    lemma_occurs_right(n_ov, pre + ov + tb + an + sr, kr);
    lemma_occurs_right(n_ov, pre + ov + tb + an + sr + kr, lr);
    lemma_occurs_right(n_ov, pre + ov + tb + an + sr + kr + lr, gr);
    let n_an = "#hyprcut-app-name {\n    color: "@ + text + ";\n    font-weight: bold;\n    font-size: "@;
    let t_an = fs + "px;\n    font-family: "@ + font + ";\n}\n"@;
    assert(an =~= n_an + t_an);
    lemma_occurs_prefix(n_an, t_an);
    lemma_occurs_left(n_an, pre + ov + tb, an);
    lemma_occurs_right(n_an, pre + ov + tb + an, sr);
    lemma_occurs_right(n_an, pre + ov + tb + an + sr, kr);
    lemma_occurs_right(n_an, pre + ov + tb + an + sr + kr, lr);
    lemma_occurs_right(n_an, pre + ov + tb + an + sr + kr + lr, gr);
    let n_kr = "#hyprcut-keys {\n    color: "@ + text + ";\n    font-weight: bold;\n    font-size: "@;
    let t_kr = fs + "px;\n    font-family: "@ + font + ";\n    min-width: 140px;\n}\n"@;
    assert(kr =~= n_kr + t_kr);
    lemma_occurs_prefix(n_kr, t_kr);
    lemma_occurs_left(n_kr, pre + ov + tb + an + sr, kr);
    lemma_occurs_right(n_kr, pre + ov + tb + an + sr + kr, lr);
    lemma_occurs_right(n_kr, pre + ov + tb + an + sr + kr + lr, gr);
    let n_lr = "#hyprcut-label {\n    color: "@ + text + ";\n    font-size: "@;
    let t_lr = fs + "px;\n}\n"@;
    assert(lr =~= n_lr + t_lr);
    lemma_occurs_prefix(n_lr, t_lr);
    lemma_occurs_left(n_lr, pre + ov + tb + an + sr + kr, lr);
    lemma_occurs_right(n_lr, pre + ov + tb + an + sr + kr + lr, gr);
    let n_gr = "#hyprcut-group-header {\n    color: "@ + muted + ";\n    font-size: "@;
    let t_gr = decimal(minus_two(font_size) as nat) + "px;\n    margin-top: 4px;\n}\n"@;
    assert(gr =~= n_gr + t_gr);
    lemma_occurs_prefix(n_gr, t_gr);
    lemma_occurs_left(n_gr, pre + ov + tb + an + sr + kr + lr, gr);
}

/// The text colour rules of a stylesheet, for the text colour `text` and the
/// group-header colour `muted`.
pub open spec fn text_colored(css: Seq<char>, text: Seq<char>, muted: Seq<char>) -> bool {
    &&& occurs_in(
        "#hyprcut-app-name {\n    color: "@ + text + ";\n    font-weight: bold;\n    font-size: "@,
        css,
    )
    &&& occurs_in(
        "#hyprcut-keys {\n    color: "@ + text + ";\n    font-weight: bold;\n    font-size: "@,
        css,
    )
    &&& occurs_in("#hyprcut-label {\n    color: "@ + text + ";\n    font-size: "@, css)
    &&& occurs_in("#hyprcut-group-header {\n    color: "@ + muted + ";\n    font-size: "@, css)
}

/// The background rule of a stylesheet, for the background `bg`.
pub open spec fn bg_colored(css: Seq<char>, bg: Seq<char>) -> bool {
    occurs_in("#hyprcut-overlay {\n    background-color: "@ + bg + ";\n    "@, css)
}

/// The application's text colour, when it is safe, colours the name, the
/// keys, the labels and the group headers, whatever the overlay sets.
pub proof fn lemma_app_text_color_used(config: &Config, app_bg: Option<Seq<char>>, c: Seq<char>)
    requires
        spec_is_safe_css_color(c),
    ensures
        text_colored(spec_stylesheet(config, app_bg, Some(c)), c, c),
{
    let o = config.overlay;
    let bg = safe_or(first_given(app_bg, opt_view(o.bg), "transparent"@), "transparent"@);
    let font = match o.font_family {
        Some(f) => f@,
        None => "monospace"@,
    };
    lemma_stylesheet_colors(bg, border_declaration(opt_view(o.border_color)), c, c, font, o.font_size);
}

/// Without an application text colour, the overlay's text colour, when it
/// is safe, colours the name, the keys, the labels and the group headers.
pub proof fn lemma_overlay_text_color_used(config: &Config, app_bg: Option<Seq<char>>, t: String)
    requires
        config.overlay.text == Some(t),
        spec_is_safe_css_color(t@),
    ensures
        text_colored(spec_stylesheet(config, app_bg, None), t@, t@),
{
    let o = config.overlay;
    let bg = safe_or(first_given(app_bg, opt_view(o.bg), "transparent"@), "transparent"@);
    let font = match o.font_family {
        Some(f) => f@,
        None => "monospace"@,
    };
    lemma_stylesheet_colors(bg, border_declaration(opt_view(o.border_color)), t@, t@, font, o.font_size);
}

/// A text colour that is asked for but not safe is replaced: the default
/// colours stand in its place.
pub proof fn lemma_unsafe_text_color_replaced(config: &Config, app_bg: Option<Seq<char>>, c: Seq<char>)
    requires
        !spec_is_safe_css_color(c),
    ensures
        text_colored(spec_stylesheet(config, app_bg, Some(c)), default_text_color(), default_muted_color()),
{
    let o = config.overlay;
    let bg = safe_or(first_given(app_bg, opt_view(o.bg), "transparent"@), "transparent"@);
    let font = match o.font_family {
        Some(f) => f@,
        None => "monospace"@,
    };
    lemma_stylesheet_colors(
        bg,
        border_declaration(opt_view(o.border_color)),
        default_text_color(),
        default_muted_color(),
        font,
        o.font_size,
    );
}

/// The application's background colour, when it is safe, is the overlay
/// box's background, whatever the overlay sets.
pub proof fn lemma_app_bg_color_used(config: &Config, app_text: Option<Seq<char>>, b: Seq<char>)
    requires
        spec_is_safe_css_color(b),
    ensures
        bg_colored(spec_stylesheet(config, Some(b), app_text), b),
{
    let o = config.overlay;
    let font = match o.font_family {
        Some(f) => f@,
        None => "monospace"@,
    };
    let text = safe_or(
        first_given(app_text, opt_view(o.text), default_text_color()),
        default_text_color(),
    );
    let muted = safe_or(
        first_given(app_text, opt_view(o.text), default_muted_color()),
        default_muted_color(),
    );
    lemma_stylesheet_colors(b, border_declaration(opt_view(o.border_color)), text, muted, font, o.font_size);
}

/// Without an application background colour, the overlay's background
/// colour, when it is safe, is the overlay box's background.
pub proof fn lemma_overlay_bg_color_used(config: &Config, app_text: Option<Seq<char>>, ob: String)
    requires
        config.overlay.bg == Some(ob),
        spec_is_safe_css_color(ob@),
    ensures
        bg_colored(spec_stylesheet(config, None, app_text), ob@),
{
    let o = config.overlay;
    let font = match o.font_family {
        Some(f) => f@,
        None => "monospace"@,
    };
    let text = safe_or(
        first_given(app_text, opt_view(o.text), default_text_color()),
        default_text_color(),
    );
    let muted = safe_or(
        first_given(app_text, opt_view(o.text), default_muted_color()),
        default_muted_color(),
    );
    lemma_stylesheet_colors(ob@, border_declaration(opt_view(o.border_color)), text, muted, font, o.font_size);
}

/// With no text colour set anywhere, the default colours colour the name,
/// the keys, the labels and the group headers.
pub proof fn lemma_defaults_used(config: &Config, app_bg: Option<Seq<char>>)
    requires
        config.overlay.text is None,
    ensures
        text_colored(spec_stylesheet(config, app_bg, None), default_text_color(), default_muted_color()),
{
    let o = config.overlay;
    let bg = safe_or(first_given(app_bg, opt_view(o.bg), "transparent"@), "transparent"@);
    let font = match o.font_family {
        Some(f) => f@,
        None => "monospace"@,
    };
    lemma_stylesheet_colors_safe(default_text_color());
    lemma_stylesheet_colors(
        bg,
        border_declaration(opt_view(o.border_color)),
        default_text_color(),
        default_muted_color(),
        font,
        o.font_size,
    );
}

/// With no background colour set anywhere, the overlay box is transparent.
pub proof fn lemma_default_bg_used(config: &Config, app_text: Option<Seq<char>>)
    requires
        config.overlay.bg is None,
    ensures
        bg_colored(spec_stylesheet(config, None, app_text), "transparent"@),
{
    let o = config.overlay;
    let font = match o.font_family {
        Some(f) => f@,
        None => "monospace"@,
    };
    let text = safe_or(
        first_given(app_text, opt_view(o.text), default_text_color()),
        default_text_color(),
    );
    let muted = safe_or(
        first_given(app_text, opt_view(o.text), default_muted_color()),
        default_muted_color(),
    );
    lemma_stylesheet_colors_safe("transparent"@);
    lemma_stylesheet_colors(
        "transparent"@,
        border_declaration(opt_view(o.border_color)),
        text,
        muted,
        font,
        o.font_size,
    );
}

/// A stylesheet, and whether the background or text colour asked for was
/// refused as unsafe (and replaced by its default).
pub struct Style {
    pub css: String,
    pub bg_refused: bool,
    pub text_refused: bool,
}

/// The first given of three optional strings, else `default`.
fn pick<'a>(app: Option<&'a String>, overlay: Option<&'a String>, default: &'a str) -> (r: &'a str)
    ensures
        r@ == first_given(opt_ref_view(app), opt_ref_view(overlay), default@),
{
    match app {
        Some(c) => c.as_str(),
        None => match overlay {
            Some(c) => c.as_str(),
            None => default,
        },
    }
}

/// The overlay box's rule, as text.
fn overlay_rule_text(bg: &str, border: &str) -> (r: String)
    ensures
        r@ == overlay_rule(bg@, border@),
{
    let mut r = String::from_str("#hyprcut-overlay {\n    background-color: ");
    r.append(bg);
    r.append(";\n    ");
    r.append(border);
    r.append("\n    padding: 4px;\n}\n");
    r
}

/// A rule that sets a colour, a bold font size and a font family, then
/// ends with `tail`.
fn named_rule_text(head: &str, color: &str, font_size: u32, font: &str, tail: &str) -> (r: String)
    ensures
        r@ == head@ + color@ + ";\n    font-weight: bold;\n    font-size: "@ + decimal(
            font_size as nat,
        ) + "px;\n    font-family: "@ + font@ + tail@,
{
    let mut r = String::from_str(head);
    r.append(color);
    r.append(";\n    font-weight: bold;\n    font-size: ");
    push_decimal(&mut r, font_size);
    r.append("px;\n    font-family: ");
    r.append(font);
    r.append(tail);
    r
}

/// A rule that sets a colour and a font size, then ends with `tail`.
fn sized_rule_text(head: &str, color: &str, font_size: u32, tail: &str) -> (r: String)
    ensures
        r@ == head@ + color@ + ";\n    font-size: "@ + decimal(font_size as nat) + tail@,
{
    let mut r = String::from_str(head);
    r.append(color);
    r.append(";\n    font-size: ");
    push_decimal(&mut r, font_size);
    r.append(tail);
    r
}

/// The stylesheet for `config`, with the colours of the shown application
/// (if any) over the overlay's. A colour that is not safe is replaced by
/// its default, and a border colour that is not safe drops the border.
pub fn build_style(config: &Config, app_bg: Option<&String>, app_text: Option<&String>) -> (r:
    Style)
    ensures
        r.css@ == spec_stylesheet(config, opt_ref_view(app_bg), opt_ref_view(app_text)),
        r.bg_refused == !spec_is_safe_css_color(
            first_given(opt_ref_view(app_bg), opt_view(config.overlay.bg), "transparent"@),
        ),
        r.text_refused == !spec_is_safe_css_color(
            first_given(
                opt_ref_view(app_text),
                opt_view(config.overlay.text),
                default_text_color(),
            ),
        ),
        match app_text {
            Some(c) => spec_is_safe_css_color(c@) ==> text_colored(r.css@, c@, c@),
            None => match config.overlay.text {
                Some(t) => spec_is_safe_css_color(t@) ==> text_colored(r.css@, t@, t@),
                None => text_colored(r.css@, default_text_color(), default_muted_color()),
            },
        },
        match app_bg {
            Some(b) => spec_is_safe_css_color(b@) ==> bg_colored(r.css@, b@),
            None => match config.overlay.bg {
                Some(b) => spec_is_safe_css_color(b@) ==> bg_colored(r.css@, b@),
                None => bg_colored(r.css@, "transparent"@),
            },
        },
{
    proof {
        match app_text {
            Some(c) => {
                if spec_is_safe_css_color(c@) {
                    lemma_app_text_color_used(config, opt_ref_view(app_bg), c@);
                }
            },
            None => match &config.overlay.text {
                Some(t) => {
                    if spec_is_safe_css_color(t@) {
                        lemma_overlay_text_color_used(config, opt_ref_view(app_bg), *t);
                    }
                },
                None => {
                    lemma_defaults_used(config, opt_ref_view(app_bg));
                },
            },
        }
        match app_bg {
            Some(b) => {
                if spec_is_safe_css_color(b@) {
                    lemma_app_bg_color_used(config, opt_ref_view(app_text), b@);
                }
            },
            None => match &config.overlay.bg {
                Some(b) => {
                    if spec_is_safe_css_color(b@) {
                        lemma_overlay_bg_color_used(config, opt_ref_view(app_text), *b);
                    }
                },
                None => {
                    lemma_default_bg_used(config, opt_ref_view(app_text));
                },
            },
        }
    }
    let o = &config.overlay;
    let font_size = o.font_size;
    let small = font_size.saturating_sub(2);
    let font: &str = match &o.font_family {
        Some(f) => f.as_str(),
        None => "monospace",
    };
    let bg_raw = pick(app_bg, o.bg.as_ref(), "transparent");
    let text_raw = pick(app_text, o.text.as_ref(), "rgba(255, 255, 255, 0.75)");
    let muted_raw = pick(app_text, o.text.as_ref(), "rgba(255, 255, 255, 0.45)");
    let bg_ok = is_safe_css_color(bg_raw);
    let text_ok = is_safe_css_color(text_raw);
    let muted_ok = is_safe_css_color(muted_raw);
    let bg = if bg_ok {
        bg_raw
    } else {
        "transparent"
    };
    let text = if text_ok {
        text_raw
    } else {
        "rgba(255, 255, 255, 0.75)"
    };
    let muted = if muted_ok {
        muted_raw
    } else {
        "rgba(255, 255, 255, 0.45)"
    };
    let mut border = String::new();
    match &o.border_color {
        Some(c) => {
            if is_safe_css_color(c.as_str()) {
                border.append("border: 1px solid ");
                border.append(c.as_str());
                border.append(";");
            } else {
                border.append("border: none;");
            }
        },
        None => {
            border.append("border: none;");
        },
    }
    proof {
        assert(Seq::<char>::empty() + "border: none;"@ == "border: none;"@);
        assert(small == minus_two(font_size));
    }
    let mut css = String::from_str("\nwindow, .background {\n    background-color: transparent;\n}\n");
    let r = overlay_rule_text(bg, border.as_str());
    css.append(r.as_str());
    css.append("#hyprcut-titlebar {\n    padding: 2px 4px;\n}\n");
    let r = named_rule_text("#hyprcut-app-name {\n    color: ", text, font_size, font, ";\n}\n");
    css.append(r.as_str());
    css.append("#hyprcut-shortcuts {\n    padding: 2px 4px;\n}\n");
    let r = named_rule_text(
        "#hyprcut-keys {\n    color: ",
        text,
        font_size,
        font,
        ";\n    min-width: 140px;\n}\n",
    );
    css.append(r.as_str());
    let r = sized_rule_text("#hyprcut-label {\n    color: ", text, font_size, "px;\n}\n");
    css.append(r.as_str());
    let r = sized_rule_text(
        "#hyprcut-group-header {\n    color: ",
        muted,
        small,
        "px;\n    margin-top: 4px;\n}\n",
    );
    css.append(r.as_str());
    Style { css, bg_refused: !bg_ok, text_refused: !text_ok }
}

} // verus!
