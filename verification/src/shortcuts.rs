//! The rows the overlay lists for an application's shortcuts.

use vstd::prelude::*;

use crate::config::{Shortcut, ShortcutList};
use crate::name_map::NameMap;
use crate::order::{names_of, sorted_positions, stable_order};

verus! {

/// The keys and label of each shortcut of `s`, in order.
pub open spec fn shortcut_pairs(s: Seq<Shortcut>) -> Seq<(Seq<char>, Seq<char>)> {
    s.map_values(|x: Shortcut| (x.keys@, x.label@))
}

/// The keys and label of every shortcut of `list`: a flat list in order,
/// groups one after another in the map's order.
pub open spec fn spec_shortcut_rows(list: ShortcutList) -> Seq<(Seq<char>, Seq<char>)> {
    match list {
        ShortcutList::Flat(l) => shortcut_pairs(l@),
        ShortcutList::Grouped(g) => g.entries().map_values(
            |p: (String, Vec<Shortcut>)| shortcut_pairs(p.1@),
        ).flatten(),
        ShortcutList::Empty => Seq::empty(),
    }
}

/// The characters of each pair of strings.
pub open spec fn string_pairs(v: Seq<(String, String)>) -> Seq<(Seq<char>, Seq<char>)> {
    v.map_values(|p: (String, String)| (p.0@, p.1@))
}

/// Appends the keys and label of each shortcut of `list` to `out`.
fn push_pairs(out: &mut Vec<(String, String)>, list: &Vec<Shortcut>)
    ensures
        string_pairs(final(out)@) == string_pairs(old(out)@) + shortcut_pairs(list@),
{
    let ghost start = old(out)@;
    let mut i: usize = 0;
    while i < list.len()
        invariant
            i <= list@.len(),
            string_pairs(out@) == string_pairs(start) + shortcut_pairs(list@.take(i as int)),
        decreases list@.len() - i,
    {
        let s = &list[i];
        let ghost before = out@;
        out.push((s.keys.clone(), s.label.clone()));
        proof {
            assert(string_pairs(out@) =~= string_pairs(before).push((s.keys@, s.label@)));
            assert(shortcut_pairs(list@.take(i + 1)) =~= shortcut_pairs(list@.take(i as int)).push(
                (s.keys@, s.label@),
            ));
        }
        i = i + 1;
    }
    assert(list@.take(list@.len() as int) =~= list@);
}

/// The keys and label of every shortcut of `list`, as the overlay lists
/// them when it does not show group headers.
pub fn shortcut_rows(list: &ShortcutList) -> (r: Vec<(String, String)>)
    ensures
        string_pairs(r@) == spec_shortcut_rows(*list),
{
    let mut out: Vec<(String, String)> = Vec::new();
    match list {
        ShortcutList::Flat(l) => {
            push_pairs(&mut out, l);
            assert(string_pairs(out@) =~= shortcut_pairs(l@));
        },
        ShortcutList::Grouped(g) => {
            let ghost parts = g.entries().map_values(
                |p: (String, Vec<Shortcut>)| shortcut_pairs(p.1@),
            );
            let n = g.len();
            let mut i: usize = 0;
            while i < n
                invariant
                    n == g.entries().len(),
                    parts == g.entries().map_values(
                        |p: (String, Vec<Shortcut>)| shortcut_pairs(p.1@),
                    ),
                    i <= n,
                    string_pairs(out@) == parts.take(i as int).flatten_alt(),
                decreases n - i,
            {
                push_pairs(&mut out, g.value_at(i));
                proof {
                    assert(parts.take(i + 1).drop_last() =~= parts.take(i as int));
                }
                i = i + 1;
            }
            proof {
                assert(parts.take(n as int) =~= parts);
                parts.lemma_flatten_and_flatten_alt_are_equivalent();
            }
        },
        ShortcutList::Empty => {
            assert(string_pairs(out@) =~= Seq::<(Seq<char>, Seq<char>)>::empty());
        },
    }
    out
}

/// The label of a group's header: the name after a rule.
pub open spec fn header_text(name: Seq<char>) -> Seq<char> {
    "── "@ + name + " "@
}

/// The label of the header of the group `name`.
pub fn group_header_text(name: &str) -> (r: String)
    ensures
        r@ == header_text(name@),
{
    let mut t = String::new();
    t.append("── ");
    t.append(name);
    t.append(" ");
    assert(Seq::<char>::empty() + "── "@ == "── "@);
    t
}

/// One row of the overlay's list: a group header, or a shortcut's keys and
/// label.
pub enum ShortcutRow {
    Header(String),
    Entry(String, String),
}

/// What a row shows.
pub enum RowView {
    Header(Seq<char>),
    Entry(Seq<char>, Seq<char>),
}

impl ShortcutRow {
    pub open spec fn view(&self) -> RowView {
        match self {
            ShortcutRow::Header(h) => RowView::Header(h@),
            ShortcutRow::Entry(k, l) => RowView::Entry(k@, l@),
        }
    }
}

/// The rows for each shortcut of `s`.
pub open spec fn entry_rows(s: Seq<Shortcut>) -> Seq<RowView> {
    s.map_values(|x: Shortcut| RowView::Entry(x.keys@, x.label@))
}

/// The rows of the groups of `g`, taken in `order`: each group's header,
/// then its shortcuts.
pub open spec fn grouped_rows(g: Seq<(String, Vec<Shortcut>)>, order: Seq<usize>) -> Seq<RowView> {
    order.map_values(
        |i: usize| seq![RowView::Header(header_text(g[i as int].0@))] + entry_rows(g[i as int].1@),
    ).flatten()
}

/// What each row of `v` shows.
pub open spec fn row_views(v: Seq<ShortcutRow>) -> Seq<RowView> {
    v.map_values(|r: ShortcutRow| r.view())
}

/// Appends a row for each shortcut of `list` to `out`.
fn push_entries(out: &mut Vec<ShortcutRow>, list: &Vec<Shortcut>)
    ensures
        row_views(final(out)@) == row_views(old(out)@) + entry_rows(list@),
{
    let ghost start = old(out)@;
    let mut i: usize = 0;
    while i < list.len()
        invariant
            i <= list@.len(),
            row_views(out@) == row_views(start) + entry_rows(list@.take(i as int)),
        decreases list@.len() - i,
    {
        let s = &list[i];
        let ghost before = out@;
        out.push(ShortcutRow::Entry(s.keys.clone(), s.label.clone()));
        proof {
            assert(row_views(out@) =~= row_views(before).push(RowView::Entry(s.keys@, s.label@)));
            assert(entry_rows(list@.take(i + 1)) =~= entry_rows(list@.take(i as int)).push(
                RowView::Entry(s.keys@, s.label@),
            ));
        }
        i = i + 1;
    }
    assert(list@.take(list@.len() as int) =~= list@);
}

/// The rows the overlay shows for `list`: a flat list's shortcuts in order;
/// for grouped shortcuts, the groups in name order (stable), each as its
/// header followed by its shortcuts; nothing for no shortcuts.
pub open spec fn is_render(list: ShortcutList, rows: Seq<RowView>) -> bool {
    match list {
        ShortcutList::Flat(l) => rows == entry_rows(l@),
        ShortcutList::Grouped(g) => rows == grouped_rows(
            g.entries(),
            stable_order(names_of(g.entries())),
        ),
        ShortcutList::Empty => rows == Seq::<RowView>::empty(),
    }
}

/// The rows of grouped shortcuts, taken in the given order of groups.
fn push_groups(out: &mut Vec<ShortcutRow>, g: &NameMap<Vec<Shortcut>>, order: &Vec<usize>)
    requires
        forall|i: int| 0 <= i < order@.len() ==> #[trigger] order@[i] < g.entries().len(),
    ensures
        row_views(final(out)@) == row_views(old(out)@) + grouped_rows(g.entries(), order@),
{
    let ghost start = old(out)@;
    let ghost parts = order@.map_values(
        |i: usize|
            seq![RowView::Header(header_text(g.entries()[i as int].0@))] + entry_rows(
                g.entries()[i as int].1@,
            ),
    );
    let mut k: usize = 0;
    while k < order.len()
        invariant
            forall|i: int| 0 <= i < order@.len() ==> #[trigger] order@[i] < g.entries().len(),
            k <= order@.len(),
            parts == order@.map_values(
                |i: usize|
                    seq![RowView::Header(header_text(g.entries()[i as int].0@))] + entry_rows(
                        g.entries()[i as int].1@,
                    ),
            ),
            row_views(out@) == row_views(start) + parts.take(k as int).flatten_alt(),
        decreases order@.len() - k,
    {
        let i = order[k];
        let ghost before = out@;
        let header = group_header_text(g.name_at(i).as_str());
        out.push(ShortcutRow::Header(header));
        assert(row_views(out@) =~= row_views(before).push(
            RowView::Header(header_text(g.entries()[i as int].0@)),
        ));
        push_entries(out, g.value_at(i));
        proof {
            assert(parts.take(k + 1).drop_last() =~= parts.take(k as int));
            assert(parts[k as int] == seq![RowView::Header(header_text(g.entries()[i as int].0@))]
                + entry_rows(g.entries()[i as int].1@));
            assert(row_views(out@) =~= row_views(start) + parts.take(k + 1).flatten_alt());
        }
        k = k + 1;
    }
    proof {
        assert(parts.take(order@.len() as int) =~= parts);
        parts.lemma_flatten_and_flatten_alt_are_equivalent();
    }
}

/// The rows the overlay shows for an application's shortcuts.
pub fn render_rows(list: &ShortcutList) -> (r: Vec<ShortcutRow>)
    ensures
        is_render(*list, row_views(r@)),
{
    let mut out: Vec<ShortcutRow> = Vec::new();
    match list {
        ShortcutList::Flat(l) => {
            push_entries(&mut out, l);
            assert(row_views(out@) =~= entry_rows(l@));
        },
        ShortcutList::Grouped(g) => {
            let order = sorted_positions(g);
            push_groups(&mut out, g, &order);
            assert(row_views(out@) =~= grouped_rows(g.entries(), order@));
        },
        ShortcutList::Empty => {
            assert(row_views(out@) =~= Seq::<RowView>::empty());
        },
    }
    out
}

} // verus!
