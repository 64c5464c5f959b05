//! Decisions on Hyprland's active-window events: the window class the
//! overlay keys on, and the monitor the active window is on.

use vstd::prelude::*;

use crate::text::{is_white_space, lemma_trimmed, lowercase, opt_view, to_lowercase, trim, trimmed};

verus! {

/// The window class as the overlay keys it: lowercased, then trimmed.
pub open spec fn spec_normalize_class(class: Seq<char>) -> Seq<char> {
    trimmed(lowercase(class))
}

/// Lowercases and trims a window class, so that it matches the
/// (lowercased) application names of the configuration.
pub fn normalize_class(class: &str) -> (r: String)
    ensures
        r@ == spec_normalize_class(class@),
        r@.len() > 0 ==> !is_white_space(r@[0]) && !is_white_space(r@.last()),
{
    let lower = to_lowercase(class);
    let r = trim(lower.as_str());
    proof {
        lemma_trimmed(lower@);
    }
    r
}

/// The class an active-window event reports: none when the event carries
/// no window, or when the window's normalized class is empty.
pub open spec fn spec_event_class(raw: Option<Seq<char>>) -> Option<Seq<char>> {
    match raw {
        Some(c) => if spec_normalize_class(c).len() == 0 {
            None
        } else {
            Some(spec_normalize_class(c))
        },
        None => None,
    }
}

/// The normalized class of the window an active-window event names.
pub fn event_class(raw: Option<String>) -> (r: Option<String>)
    ensures
        r is Some <==> spec_event_class(opt_view(raw)) is Some,
        r matches Some(c) ==> spec_event_class(opt_view(raw)) == Some(c@),
{
    match raw {
        Some(c) => {
            let n = normalize_class(c.as_str());
            if n.as_str().is_empty() {
                None
            } else {
                Some(n)
            }
        },
        None => None,
    }
}

/// The position of the first monitor whose id is the one the active client
/// is on; none when the client names no monitor or none has its id.
pub fn find_monitor(ids: &Vec<i128>, wanted: Option<i128>) -> (r: Option<usize>)
    ensures
        match r {
            Some(i) => i < ids@.len() && wanted == Some(ids@[i as int]) && forall|j: int|
                0 <= j < i ==> wanted != Some(#[trigger] ids@[j]),
            None => forall|j: int| 0 <= j < ids@.len() ==> wanted != Some(#[trigger] ids@[j]),
        },
{
    let n = ids.len();
    let mut i: usize = 0;
    while i < n
        invariant
            n == ids@.len(),
            i <= n,
            forall|j: int| 0 <= j < i ==> wanted != Some(#[trigger] ids@[j]),
        decreases n - i,
    {
        if wanted == Some(ids[i]) {
            return Some(i);
        }
        i = i + 1;
    }
    None
}

} // verus!
