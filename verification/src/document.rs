//! The TOML document the configuration is saved as, built with `toml_edit`.
//!
//! `toml_edit`'s values are opaque here; what the library knows of them is
//! what they hold, as a `TomlModel`, through the names below and the
//! contracts of the calls that build them.

use vstd::prelude::*;

use crate::config::{AppConfig, Config, OverlayConfig, Shortcut, ShortcutList};
use crate::name_map::NameMap;
use crate::order::{is_stable_sort, name_lt, names_of, sorted_positions, stable_order};
use toml_edit::{Array, DocumentMut, InlineTable, Item, Table, Value};

verus! {

#[verifier::external_type_specification]
#[verifier::external_body]
pub struct ExDocumentMut(DocumentMut);

#[verifier::external_type_specification]
#[verifier::external_body]
pub struct ExTable(Table);

#[verifier::external_type_specification]
#[verifier::external_body]
pub struct ExInlineTable(InlineTable);

#[verifier::external_type_specification]
#[verifier::external_body]
pub struct ExArray(Array);

#[verifier::external_type_specification]
#[verifier::external_body]
pub struct ExItem(Item);

#[verifier::external_type_specification]
#[verifier::external_body]
pub struct ExValue(Value);

/// What a TOML value or item holds.
pub enum TomlModel {
    Str(Seq<char>),
    Int(int),
    /// A float, by its IEEE 754 bit pattern.
    Float(u64),
    Array(Seq<TomlModel>),
    Inline(Seq<(Seq<char>, TomlModel)>),
    /// A table: whether it is implicit (its header is not written when it
    /// holds only tables), and its pairs.
    Table(bool, Seq<(Seq<char>, TomlModel)>),
}

/// The pairs of a document's root table, in order.
pub uninterp spec fn document_entries(d: DocumentMut) -> Seq<(Seq<char>, TomlModel)>;

/// The pairs of a table, in order.
pub uninterp spec fn table_entries(t: Table) -> Seq<(Seq<char>, TomlModel)>;

/// Whether a table is implicit.
pub uninterp spec fn table_implicit(t: Table) -> bool;

/// The pairs of an inline table, in order.
pub uninterp spec fn inline_entries(t: InlineTable) -> Seq<(Seq<char>, TomlModel)>;

/// The values of an array, in order.
pub uninterp spec fn array_values(a: Array) -> Seq<TomlModel>;

/// What a value holds.
pub uninterp spec fn value_model(v: Value) -> TomlModel;

/// What an item holds.
pub uninterp spec fn item_model(i: Item) -> TomlModel;

/// The document has the formatting `toml_edit` gives what it makes new: no
/// comments, spacing or other decoration and no custom representation of
/// keys or values anywhere in it, no dotted tables, tables placed in the
/// order they were inserted, and the root as `DocumentMut::new` makes it.
pub uninterp spec fn document_plain(d: DocumentMut) -> bool;

/// The table has the formatting `toml_edit` gives what it makes new (see
/// `document_plain`).
pub uninterp spec fn table_plain(t: Table) -> bool;

/// The inline table has the formatting `toml_edit` gives what it makes new.
pub uninterp spec fn inline_plain(t: InlineTable) -> bool;

/// The array has the formatting `toml_edit` gives what it makes new.
pub uninterp spec fn array_plain(a: Array) -> bool;

/// The value has the formatting `toml_edit` gives what it makes new.
pub uninterp spec fn value_plain(v: Value) -> bool;

/// The item has the formatting `toml_edit` gives what it makes new.
pub uninterp spec fn item_plain(i: Item) -> bool;

/// The TOML text `toml_edit` writes for a document with the formatting it
/// gives what it makes new, holding the pairs `entries` in its root table.
pub uninterp spec fn toml_text(entries: Seq<(Seq<char>, TomlModel)>) -> Seq<char>;

/// No pair of `s` has the key `k`.
pub open spec fn key_absent(s: Seq<(Seq<char>, TomlModel)>, k: Seq<char>) -> bool {
    forall|i: int| 0 <= i < s.len() ==> (#[trigger] s[i]).0 != k
}

/// `s` after storing `m` under `k`, as an `IndexMap` does it: the pair
/// with the key gets the new value where it stands, or a pair is appended.
pub open spec fn upsert(s: Seq<(Seq<char>, TomlModel)>, k: Seq<char>, m: TomlModel) -> Seq<
    (Seq<char>, TomlModel),
> {
    if key_absent(s, k) {
        s.push((k, m))
    } else {
        let i = choose|i: int| 0 <= i < s.len() && (#[trigger] s[i]).0 == k;
        s.update(i, (k, m))
    }
}

proof fn lemma_absent_concat(a: Seq<(Seq<char>, TomlModel)>, b: Seq<(Seq<char>, TomlModel)>, k: Seq<
    char,
>)
    requires
        key_absent(a, k),
        key_absent(b, k),
    ensures
        key_absent(a + b, k),
{
    assert forall|i: int| 0 <= i < (a + b).len() implies (#[trigger] (a + b)[i]).0 != k by {
        if i >= a.len() {
            assert((a + b)[i] == b[i - a.len()]);
        }
    }
}

proof fn lemma_absent_opt(k2: Seq<char>, o: Option<String>, k: Seq<char>)
    requires
        k2 != k,
    ensures
        key_absent(opt_str_entry(k2, o), k),
{
}

/// Calls `DocumentMut::new`: an empty document, with new formatting.
#[verifier::external_body]
fn new_document() -> (d: DocumentMut)
    ensures
        document_entries(d) == Seq::<(Seq<char>, TomlModel)>::empty(),
        document_plain(d),
{
    DocumentMut::new()
}

/// Calls `Table::insert` on the root table of a document (which
/// `DocumentMut` dereferences to): the pair is replaced where it stands, or
/// appended. It decorates nothing: inserting an item with new formatting
/// into a document with new formatting leaves it so.
#[verifier::external_body]
fn document_insert(d: &mut DocumentMut, key: &str, item: Item)
    ensures
        document_entries(*final(d)) == upsert(document_entries(*old(d)), key@, item_model(item)),
        document_plain(*old(d)) && item_plain(item) ==> document_plain(*final(d)),
{
    d.insert(key, item);
}

/// Calls `Table::new`: an empty table, not implicit, with new formatting.
#[verifier::external_body]
fn new_table() -> (t: Table)
    ensures
        table_entries(t) == Seq::<(Seq<char>, TomlModel)>::empty(),
        !table_implicit(t),
        table_plain(t),
{
    Table::new()
}

/// Calls `Table::insert`: the pair with the key gets the item where it
/// stands, or the pair is appended; whether the table is implicit does not
/// change, and it decorates nothing.
#[verifier::external_body]
fn table_insert(t: &mut Table, key: &str, item: Item)
    ensures
        table_entries(*final(t)) == upsert(table_entries(*old(t)), key@, item_model(item)),
        table_implicit(*final(t)) == table_implicit(*old(t)),
        table_plain(*old(t)) && item_plain(item) ==> table_plain(*final(t)),
{
    t.insert(key, item);
}

/// Calls `Table::set_implicit`, which sets the flag and nothing else.
#[verifier::external_body]
fn table_set_implicit(t: &mut Table, implicit: bool)
    ensures
        table_entries(*final(t)) == table_entries(*old(t)),
        table_implicit(*final(t)) == implicit,
        table_plain(*final(t)) == table_plain(*old(t)),
{
    t.set_implicit(implicit);
}

/// Wraps a table as an item (`Item::Table`).
#[verifier::external_body]
fn table_item(t: Table) -> (i: Item)
    ensures
        item_model(i) == TomlModel::Table(table_implicit(t), table_entries(t)),
        item_plain(i) == table_plain(t),
{
    Item::Table(t)
}

/// Calls `toml_edit::value`, which wraps a value as an item
/// (`Item::Value`).
#[verifier::external_body]
fn value_item(v: Value) -> (i: Item)
    ensures
        item_model(i) == value_model(v),
        item_plain(i) == value_plain(v),
{
    toml_edit::value(v)
}

/// Calls `Array::new`: an empty array.
#[verifier::external_body]
fn new_array() -> (a: Array)
    ensures
        array_values(a) == Seq::<TomlModel>::empty(),
        array_plain(a),
{
    Array::new()
}

/// Calls `Array::push`, which appends the value.
#[verifier::external_body]
fn array_push(a: &mut Array, v: Value)
    ensures
        array_values(*final(a)) == array_values(*old(a)).push(value_model(v)),
        array_plain(*old(a)) && value_plain(v) ==> array_plain(*final(a)),
{
    a.push(v);
}

/// Calls `Value::from` on an array (`Value::Array`).
#[verifier::external_body]
fn array_value(a: Array) -> (v: Value)
    ensures
        value_model(v) == TomlModel::Array(array_values(a)),
        value_plain(v) == array_plain(a),
{
    Value::from(a)
}

/// Calls `InlineTable::new`: an empty inline table.
#[verifier::external_body]
fn new_inline_table() -> (t: InlineTable)
    ensures
        inline_entries(t) == Seq::<(Seq<char>, TomlModel)>::empty(),
        inline_plain(t),
{
    InlineTable::new()
}

/// Calls `InlineTable::insert`: the pair with the key gets the value where
/// it stands, or the pair is appended.
#[verifier::external_body]
fn inline_insert(t: &mut InlineTable, key: &str, v: Value)
    ensures
        inline_entries(*final(t)) == upsert(inline_entries(*old(t)), key@, value_model(v)),
        inline_plain(*old(t)) && value_plain(v) ==> inline_plain(*final(t)),
{
    t.insert(key, v);
}

/// Calls `Value::from` on an inline table (`Value::InlineTable`).
#[verifier::external_body]
fn inline_value(t: InlineTable) -> (v: Value)
    ensures
        value_model(v) == TomlModel::Inline(inline_entries(t)),
        value_plain(v) == inline_plain(t),
{
    Value::from(t)
}

/// Calls `Value::from` on a string slice: a string value holding it.
#[verifier::external_body]
fn str_value(s: &str) -> (v: Value)
    ensures
        value_model(v) == TomlModel::Str(s@),
        value_plain(v),
{
    Value::from(s)
}

/// Calls `Value::from` on an `i64`: an integer value holding it.
#[verifier::external_body]
fn int_value(n: i64) -> (v: Value)
    ensures
        value_model(v) == TomlModel::Int(n as int),
        value_plain(v),
{
    Value::from(n)
}

/// Calls `DocumentMut`'s `Display` (through `to_string`), which writes the
/// document as TOML text. `toml_edit` writes a document from its tables,
/// keys and values and their formatting; where that formatting is what
/// `toml_edit` gives what it makes new, the text depends on the pairs alone,
/// and the contract names it. Of other documents nothing is stated.
#[verifier::external_body]
fn document_text(d: &DocumentMut) -> (r: String)
    ensures
        document_plain(*d) ==> r@ == toml_text(document_entries(*d)),
{
    d.to_string()
}

/// A position as a TOML array of two integers.
pub open spec fn pair_model(p: [i32; 2]) -> TomlModel {
    TomlModel::Array(seq![TomlModel::Int(p[0] as int), TomlModel::Int(p[1] as int)])
}

/// A shortcut as an inline table of its keys and label.
pub open spec fn shortcut_model(s: Shortcut) -> TomlModel {
    TomlModel::Inline(seq![("keys"@, TomlModel::Str(s.keys@)), ("label"@, TomlModel::Str(s.label@))])
}

/// A list of shortcuts as an array of inline tables.
pub open spec fn list_model(l: Seq<Shortcut>) -> TomlModel {
    TomlModel::Array(l.map_values(|s: Shortcut| shortcut_model(s)))
}

/// The pair `k = s` when the string is given, else nothing.
pub open spec fn opt_str_entry(k: Seq<char>, o: Option<String>) -> Seq<(Seq<char>, TomlModel)> {
    match o {
        Some(s) => seq![(k, TomlModel::Str(s@))],
        None => Seq::empty(),
    }
}

/// Groups of shortcuts as a table with a list per group, the groups in
/// name order.
pub open spec fn groups_model(g: Seq<(String, Vec<Shortcut>)>) -> TomlModel {
    TomlModel::Table(
        false,
        stable_order(names_of(g)).map_values(
            |i: usize| (g[i as int].0@, list_model(g[i as int].1@)),
        ),
    )
}

/// The `shortcuts` pair of an application: an array for a flat list, a
/// table for groups, nothing for none.
pub open spec fn shortcuts_entry(l: ShortcutList) -> Seq<(Seq<char>, TomlModel)> {
    match l {
        ShortcutList::Flat(v) => seq![("shortcuts"@, list_model(v@))],
        ShortcutList::Grouped(g) => seq![("shortcuts"@, groups_model(g.entries()))],
        ShortcutList::Empty => Seq::empty(),
    }
}

/// The pairs of an application's table: its name, then its position,
/// background and text colours when set, then its shortcuts.
pub open spec fn app_entries(a: AppConfig) -> Seq<(Seq<char>, TomlModel)> {
    seq![("name"@, TomlModel::Str(a.name@))] + match a.position {
        Some(p) => seq![("position"@, pair_model(p))],
        None => Seq::empty(),
    } + opt_str_entry("bg"@, a.bg) + opt_str_entry("text"@, a.text) + shortcuts_entry(a.shortcuts)
}

/// The pairs of the `overlay` table: position, opacity (the item given
/// for it) and font size, then background and text colours and font family
/// when set. The border colour is not saved.
pub open spec fn overlay_entries(o: OverlayConfig, opacity: TomlModel) -> Seq<
    (Seq<char>, TomlModel),
> {
    seq![
        ("position"@, pair_model(o.position)),
        ("opacity"@, opacity),
        ("font_size"@, TomlModel::Int(o.font_size as int)),
    ] + opt_str_entry("bg"@, o.bg) + opt_str_entry("text"@, o.text) + opt_str_entry(
        "font_family"@,
        o.font_family,
    )
}

/// The tables of the applications, in name order.
pub open spec fn app_tables(apps: Seq<(String, AppConfig)>) -> Seq<(Seq<char>, TomlModel)> {
    stable_order(names_of(apps)).map_values(
        |i: usize| (apps[i as int].0@, TomlModel::Table(false, app_entries(apps[i as int].1))),
    )
}

/// The `apps` table: implicit, with a table per application in name order.
pub open spec fn apps_model(apps: Seq<(String, AppConfig)>) -> TomlModel {
    TomlModel::Table(true, app_tables(apps))
}

/// Every application is saved, once, and the applications are saved in
/// name order.
pub open spec fn saves_every_app_in_order(apps: Seq<(String, AppConfig)>) -> bool {
    let t = app_tables(apps);
    &&& t.len() == apps.len()
    &&& forall|i: int|
        0 <= i < apps.len() ==> t.contains(
            (apps[i].0@, TomlModel::Table(false, app_entries(apps[i].1))),
        )
    &&& forall|j: int, k: int| 0 <= j < k < t.len() ==> !name_lt(t[k].0, t[j].0)
}

/// The document a configuration is saved as.
pub open spec fn document_plan(c: Config, opacity: TomlModel) -> Seq<(Seq<char>, TomlModel)> {
    seq![
        ("overlay"@, TomlModel::Table(false, overlay_entries(c.overlay, opacity))),
        ("apps"@, apps_model(c.apps.entries())),
    ]
}

/// The saved `overlay` table keeps every overlay setting but the border
/// colour: the position, the opacity item, the font size, and the
/// background and text colours and font family whenever they are set.
pub proof fn lemma_overlay_saved(o: OverlayConfig, opacity: TomlModel)
    ensures
        overlay_entries(o, opacity).contains(("position"@, pair_model(o.position))),
        overlay_entries(o, opacity).contains(("opacity"@, opacity)),
        overlay_entries(o, opacity).contains(("font_size"@, TomlModel::Int(o.font_size as int))),
        forall|s: String| o.bg == Some(s) ==> overlay_entries(o, opacity).contains(
            ("bg"@, TomlModel::Str(s@)),
        ),
        forall|s: String| o.text == Some(s) ==> overlay_entries(o, opacity).contains(
            ("text"@, TomlModel::Str(s@)),
        ),
        forall|s: String| o.font_family == Some(s) ==> overlay_entries(o, opacity).contains(
            ("font_family"@, TomlModel::Str(s@)),
        ),
{
    let e = overlay_entries(o, opacity);
    let head = seq![
        ("position"@, pair_model(o.position)),
        ("opacity"@, opacity),
        ("font_size"@, TomlModel::Int(o.font_size as int)),
    ];
    let b = opt_str_entry("bg"@, o.bg);
    let t = opt_str_entry("text"@, o.text);
    let f = opt_str_entry("font_family"@, o.font_family);
    assert(e == head + b + t + f);
    assert(e[0] == head[0]);
    assert(e[1] == head[1]);
    assert(e[2] == head[2]);
    assert forall|s: String| o.bg == Some(s) implies e.contains(("bg"@, TomlModel::Str(s@))) by {
        assert(e[3] == ("bg"@, TomlModel::Str(s@)));
    }
    assert forall|s: String| o.text == Some(s) implies e.contains(("text"@, TomlModel::Str(s@))) by {
        assert(e[(3 + b.len()) as int] == ("text"@, TomlModel::Str(s@)));
    }
    assert forall|s: String| o.font_family == Some(s) implies e.contains(
        ("font_family"@, TomlModel::Str(s@)),
    ) by {
        assert(e[(3 + b.len() + t.len()) as int] == ("font_family"@, TomlModel::Str(s@)));
    }
}

/// The saved table of an application keeps its name, and its position,
/// colours and shortcuts whenever they are set.
pub proof fn lemma_app_saved(a: AppConfig)
    ensures
        app_entries(a).contains(("name"@, TomlModel::Str(a.name@))),
        forall|p: [i32; 2]| a.position == Some(p) ==> app_entries(a).contains(
            ("position"@, pair_model(p)),
        ),
        forall|s: String| a.bg == Some(s) ==> app_entries(a).contains(("bg"@, TomlModel::Str(s@))),
        forall|s: String| a.text == Some(s) ==> app_entries(a).contains(
            ("text"@, TomlModel::Str(s@)),
        ),
        forall|l: Vec<Shortcut>| a.shortcuts == ShortcutList::Flat(l) ==> app_entries(a).contains(
            ("shortcuts"@, list_model(l@)),
        ),
{
    let e = app_entries(a);
    let pp = match a.position {
        Some(p) => seq![("position"@, pair_model(p))],
        None => Seq::<(Seq<char>, TomlModel)>::empty(),
    };
    let b = opt_str_entry("bg"@, a.bg);
    let t = opt_str_entry("text"@, a.text);
    let sc = shortcuts_entry(a.shortcuts);
    assert(e == seq![("name"@, TomlModel::Str(a.name@))] + pp + b + t + sc);
    assert(e[0] == ("name"@, TomlModel::Str(a.name@)));
    assert forall|p: [i32; 2]| a.position == Some(p) implies e.contains(
        ("position"@, pair_model(p)),
    ) by {
        assert(e[1] == ("position"@, pair_model(p)));
    }
    assert forall|s: String| a.bg == Some(s) implies e.contains(("bg"@, TomlModel::Str(s@))) by {
        assert(e[(1 + pp.len()) as int] == ("bg"@, TomlModel::Str(s@)));
    }
    assert forall|s: String| a.text == Some(s) implies e.contains(("text"@, TomlModel::Str(s@))) by {
        assert(e[(1 + pp.len() + b.len()) as int] == ("text"@, TomlModel::Str(s@)));
    }
    assert forall|l: Vec<Shortcut>| a.shortcuts == ShortcutList::Flat(l) implies e.contains(
        ("shortcuts"@, list_model(l@)),
    ) by {
        assert(e[(1 + pp.len() + b.len() + t.len()) as int] == ("shortcuts"@, list_model(l@)));
    }
}

/// Appends a pair under a key the table does not hold yet.
fn put(t: &mut Table, key: &str, item: Item)
    requires
        key_absent(table_entries(*old(t)), key@),
    ensures
        table_entries(*final(t)) == table_entries(*old(t)).push((key@, item_model(item))),
        table_implicit(*final(t)) == table_implicit(*old(t)),
        table_plain(*old(t)) && item_plain(item) ==> table_plain(*final(t)),
{
    table_insert(t, key, item);
}

/// Appends `key = s` when `o` holds a string.
fn put_opt_str(t: &mut Table, key: &str, o: &Option<String>)
    requires
        key_absent(table_entries(*old(t)), key@),
    ensures
        table_entries(*final(t)) == table_entries(*old(t)) + opt_str_entry(key@, *o),
        table_implicit(*final(t)) == table_implicit(*old(t)),
        table_plain(*old(t)) ==> table_plain(*final(t)),
{
    match o {
        Some(s) => {
            put(t, key, value_item(str_value(s.as_str())));
            assert(table_entries(*old(t)).push((key@, TomlModel::Str(s@))) =~= table_entries(
                *old(t),
            ) + opt_str_entry(key@, *o));
        },
        None => {
            assert(table_entries(*old(t)) =~= table_entries(*old(t)) + opt_str_entry(key@, *o));
        },
    }
}

/// A position as a TOML array.
fn pair_value(p: [i32; 2]) -> (v: Value)
    ensures
        value_model(v) == pair_model(p),
        value_plain(v),
{
    let mut a = new_array();
    array_push(&mut a, int_value(p[0] as i64));
    array_push(&mut a, int_value(p[1] as i64));
    assert(array_values(a) =~= seq![TomlModel::Int(p[0] as int), TomlModel::Int(p[1] as int)]);
    array_value(a)
}

/// A list of shortcuts as an array of inline tables.
fn list_value(l: &Vec<Shortcut>) -> (v: Value)
    ensures
        value_model(v) == list_model(l@),
        value_plain(v),
{
    let mut a = new_array();
    let mut i: usize = 0;
    while i < l.len()
        invariant
            i <= l@.len(),
            array_values(a) == l@.take(i as int).map_values(|s: Shortcut| shortcut_model(s)),
            array_plain(a),
        decreases l@.len() - i,
    {
        let s = &l[i];
        let mut t = new_inline_table();
        inline_insert(&mut t, "keys", str_value(s.keys.as_str()));
        proof {
            reveal_strlit("keys");
            reveal_strlit("label");
            assert("keys"@[0] != "label"@[0]);
            assert(inline_entries(t) =~= seq![("keys"@, TomlModel::Str(s.keys@))]);
            assert(key_absent(inline_entries(t), "label"@));
        }
        inline_insert(&mut t, "label", str_value(s.label.as_str()));
        assert(inline_entries(t) =~= seq![
            ("keys"@, TomlModel::Str(s.keys@)),
            ("label"@, TomlModel::Str(s.label@)),
        ]);
        array_push(&mut a, inline_value(t));
        assert(l@.take(i + 1).map_values(|s: Shortcut| shortcut_model(s)) =~= l@.take(
            i as int,
        ).map_values(|s: Shortcut| shortcut_model(s)).push(shortcut_model(*s)));
        i = i + 1;
    }
    assert(l@.take(l@.len() as int) =~= l@);
    array_value(a)
}

/// The table of grouped shortcuts, the groups in name order.
fn groups_table(g: &NameMap<Vec<Shortcut>>) -> (t: Table)
    ensures
        TomlModel::Table(table_implicit(t), table_entries(t)) == groups_model(g.entries()),
        table_plain(t),
{
    proof {
        use_type_invariant(g);
    }
    let ghost e = g.entries();
    let order = sorted_positions(g);
    let mut t = new_table();
    let mut k: usize = 0;
    while k < order.len()
        invariant
            e == g.entries(),
            g.wf(),
            order@ == stable_order(names_of(e)),
            order@.len() == e.len(),
            forall|i: int| 0 <= i < order@.len() ==> #[trigger] order@[i] < e.len(),
            forall|i: int, j: int| 0 <= i < j < order@.len() ==> order@[i] != order@[j],
            k <= order@.len(),
            !table_implicit(t),
            table_plain(t),
            table_entries(t) == order@.take(k as int).map_values(
                |i: usize| (e[i as int].0@, list_model(e[i as int].1@)),
            ),
        decreases order@.len() - k,
    {
        let i = order[k];
        proof {
            assert forall|j: int| 0 <= j < table_entries(t).len() implies (#[trigger] table_entries(
                t,
            )[j]).0 != e[i as int].0@ by {
                assert(table_entries(t)[j].0 == e[order@[j] as int].0@);
                assert(order@[j] != order@[k as int]);
            }
        }
        put(&mut t, g.name_at(i).as_str(), value_item(list_value(g.value_at(i))));
        assert(order@.take(k + 1).map_values(
            |i: usize| (e[i as int].0@, list_model(e[i as int].1@)),
        ) =~= order@.take(k as int).map_values(
            |i: usize| (e[i as int].0@, list_model(e[i as int].1@)),
        ).push((e[i as int].0@, list_model(e[i as int].1@))));
        k = k + 1;
    }
    assert(order@.take(order@.len() as int) =~= order@);
    t
}

/// The table of one application.
fn app_table(a: &AppConfig) -> (t: Table)
    ensures
        !table_implicit(t),
        table_entries(t) == app_entries(*a),
        table_plain(t),
{
    proof {
        reveal_strlit("name");
        reveal_strlit("position");
        reveal_strlit("bg");
        reveal_strlit("text");
        reveal_strlit("shortcuts");
    }
    assert("name"@[0] != "text"@[0]);
    assert("name"@[0] != "shortcuts"@[0]);
    assert("position"@[0] != "shortcuts"@[0]);
    assert("text"@[0] != "shortcuts"@[0]);
    let mut t = new_table();
    put(&mut t, "name", value_item(str_value(a.name.as_str())));
    let ghost e0 = table_entries(t);
    assert(e0 =~= seq![("name"@, TomlModel::Str(a.name@))]);
    match a.position {
        Some(p) => {
            put(&mut t, "position", value_item(pair_value(p)));
        },
        None => {},
    }
    let ghost pos_part = match a.position {
        Some(p) => seq![("position"@, pair_model(p))],
        None => Seq::<(Seq<char>, TomlModel)>::empty(),
    };
    assert(table_entries(t) =~= e0 + pos_part);
    proof {
        lemma_absent_concat(e0, pos_part, "bg"@);
    }
    put_opt_str(&mut t, "bg", &a.bg);
    proof {
        lemma_absent_concat(e0, pos_part, "text"@);
        lemma_absent_opt("bg"@, a.bg, "text"@);
        lemma_absent_concat(e0 + pos_part, opt_str_entry("bg"@, a.bg), "text"@);
    }
    put_opt_str(&mut t, "text", &a.text);
    let ghost before = table_entries(t);
    proof {
        lemma_absent_concat(e0, pos_part, "shortcuts"@);
        lemma_absent_opt("bg"@, a.bg, "shortcuts"@);
        lemma_absent_opt("text"@, a.text, "shortcuts"@);
        lemma_absent_concat(e0 + pos_part, opt_str_entry("bg"@, a.bg), "shortcuts"@);
        lemma_absent_concat(
            e0 + pos_part + opt_str_entry("bg"@, a.bg),
            opt_str_entry("text"@, a.text),
            "shortcuts"@,
        );
    }
    match &a.shortcuts {
        ShortcutList::Flat(l) => {
            put(&mut t, "shortcuts", value_item(list_value(l)));
        },
        ShortcutList::Grouped(g) => {
            let sc = groups_table(g);
            put(&mut t, "shortcuts", table_item(sc));
        },
        ShortcutList::Empty => {},
    }
    assert(table_entries(t) =~= before + shortcuts_entry(a.shortcuts));
    assert(app_entries(*a) =~= e0 + pos_part + opt_str_entry("bg"@, a.bg) + opt_str_entry(
        "text"@,
        a.text,
    ) + shortcuts_entry(a.shortcuts));
    t
}

/// The `overlay` table; `opacity` is the item for the opacity.
fn overlay_table(o: &OverlayConfig, opacity: Item) -> (t: Table)
    ensures
        !table_implicit(t),
        table_entries(t) == overlay_entries(*o, item_model(opacity)),
        item_plain(opacity) ==> table_plain(t),
{
    proof {
        reveal_strlit("position");
        reveal_strlit("opacity");
        reveal_strlit("font_size");
        reveal_strlit("bg");
        reveal_strlit("text");
        reveal_strlit("font_family");
    }
    assert("position"@[0] != "opacity"@[0]);
    assert("position"@[0] != "font_size"@[0]);
    assert("opacity"@[0] != "font_size"@[0]);
    assert("font_size"@[5] != "font_family"@[5]);
    assert("bg"@[0] != "text"@[0]);
    assert("bg"@[0] != "font_family"@[0]);
    let ghost om = item_model(opacity);
    let mut t = new_table();
    put(&mut t, "position", value_item(pair_value(o.position)));
    assert(table_entries(t) =~= seq![("position"@, pair_model(o.position))]);
    put(&mut t, "opacity", opacity);
    assert(table_entries(t) =~= seq![("position"@, pair_model(o.position)), ("opacity"@, om)]);
    put(&mut t, "font_size", value_item(int_value(o.font_size as i64)));
    let ghost e0 = table_entries(t);
    assert(e0 =~= seq![
        ("position"@, pair_model(o.position)),
        ("opacity"@, om),
        ("font_size"@, TomlModel::Int(o.font_size as int)),
    ]);
    assert(key_absent(e0, "bg"@));
    assert(key_absent(e0, "text"@));
    assert(key_absent(e0, "font_family"@));
    put_opt_str(&mut t, "bg", &o.bg);
    proof {
        lemma_absent_opt("bg"@, o.bg, "text"@);
        lemma_absent_concat(e0, opt_str_entry("bg"@, o.bg), "text"@);
    }
    put_opt_str(&mut t, "text", &o.text);
    proof {
        lemma_absent_opt("bg"@, o.bg, "font_family"@);
        lemma_absent_opt("text"@, o.text, "font_family"@);
        lemma_absent_concat(e0, opt_str_entry("bg"@, o.bg), "font_family"@);
        lemma_absent_concat(
            e0 + opt_str_entry("bg"@, o.bg),
            opt_str_entry("text"@, o.text),
            "font_family"@,
        );
    }
    put_opt_str(&mut t, "font_family", &o.font_family);
    t
}

/// The `apps` table, the applications in name order.
fn apps_table(apps: &NameMap<AppConfig>) -> (t: Table)
    ensures
        TomlModel::Table(table_implicit(t), table_entries(t)) == apps_model(apps.entries()),
        saves_every_app_in_order(apps.entries()),
        table_plain(t),
{
    proof {
        use_type_invariant(apps);
    }
    let ghost e = apps.entries();
    let order = sorted_positions(apps);
    let mut t = new_table();
    table_set_implicit(&mut t, true);
    let mut k: usize = 0;
    while k < order.len()
        invariant
            e == apps.entries(),
            apps.wf(),
            order@ == stable_order(names_of(e)),
            order@.len() == e.len(),
            forall|i: int| 0 <= i < order@.len() ==> #[trigger] order@[i] < e.len(),
            forall|i: int, j: int| 0 <= i < j < order@.len() ==> order@[i] != order@[j],
            k <= order@.len(),
            table_implicit(t),
            table_plain(t),
            table_entries(t) == order@.take(k as int).map_values(
                |i: usize| (e[i as int].0@, TomlModel::Table(false, app_entries(e[i as int].1))),
            ),
        decreases order@.len() - k,
    {
        let i = order[k];
        proof {
            assert forall|j: int| 0 <= j < table_entries(t).len() implies (#[trigger] table_entries(
                t,
            )[j]).0 != e[i as int].0@ by {
                assert(table_entries(t)[j].0 == e[order@[j] as int].0@);
                assert(order@[j] != order@[k as int]);
            }
        }
        let at = app_table(apps.value_at(i));
        put(&mut t, apps.name_at(i).as_str(), table_item(at));
        assert(order@.take(k + 1).map_values(
            |i: usize| (e[i as int].0@, TomlModel::Table(false, app_entries(e[i as int].1))),
        ) =~= order@.take(k as int).map_values(
            |i: usize| (e[i as int].0@, TomlModel::Table(false, app_entries(e[i as int].1))),
        ).push((e[i as int].0@, TomlModel::Table(false, app_entries(e[i as int].1)))));
        k = k + 1;
    }
    assert(order@.take(order@.len() as int) =~= order@);
    proof {
        let names = names_of(e);
        let tt = app_tables(e);
        assert(is_stable_sort(names, order@));
        assert forall|i: int| 0 <= i < e.len() implies tt.contains(
            (e[i].0@, TomlModel::Table(false, app_entries(e[i].1))),
        ) by {
            let x = i as usize;
            assert(order@.contains(x));
            let q = choose|q: int| 0 <= q < order@.len() && order@[q] == x;
            assert(tt[q] == (e[i].0@, TomlModel::Table(false, app_entries(e[i].1))));
        }
        assert forall|j: int, k: int| 0 <= j < k < tt.len() implies !name_lt(tt[k].0, tt[j].0) by {
            assert(tt[k].0 == names[order@[k] as int]);
            assert(tt[j].0 == names[order@[j] as int]);
        }
    }
    t
}

/// The TOML document `config` is saved as: an `overlay` table (position,
/// the given opacity item, font size, and the colours and font family that
/// are set; not the border colour), then an implicit `apps` table with a
/// table per application in name order (name, position, colours, and
/// shortcuts as an array of `{ keys, label }` inline tables, or a table of
/// such arrays per group in name order).
pub fn config_document(config: &Config, opacity: Item) -> (d: DocumentMut)
    ensures
        document_entries(d) == document_plan(*config, item_model(opacity)),
        saves_every_app_in_order(config.apps.entries()),
        item_plain(opacity) ==> document_plain(d),
        document_entries(d)[0].0 == "overlay"@,
        forall|s: String|
            config.overlay.bg == Some(s) ==> (document_entries(d)[0].1 matches TomlModel::Table(
                _,
                e,
            ) && e.contains(("bg"@, TomlModel::Str(s@)))),
        forall|s: String|
            config.overlay.text == Some(s) ==> (document_entries(d)[0].1 matches TomlModel::Table(
                _,
                e,
            ) && e.contains(("text"@, TomlModel::Str(s@)))),
        forall|s: String|
            config.overlay.font_family == Some(s) ==> (document_entries(d)[0].1 matches TomlModel::Table(
                _,
                e,
            ) && e.contains(("font_family"@, TomlModel::Str(s@)))),
{
    proof {
        lemma_overlay_saved(config.overlay, item_model(opacity));
    }
    proof {
        reveal_strlit("overlay");
        reveal_strlit("apps");
    }
    assert("overlay"@[0] != "apps"@[0]);
    let mut d = new_document();
    let ov = overlay_table(&config.overlay, opacity);
    document_insert(&mut d, "overlay", table_item(ov));
    assert(key_absent(document_entries(d), "apps"@));
    let at = apps_table(&config.apps);
    document_insert(&mut d, "apps", table_item(at));
    assert(document_entries(d) =~= document_plan(*config, item_model(opacity)));
    d
}

/// The text of the saved configuration file: `config_document` written
/// out as TOML. When the opacity item has the formatting `toml_edit` gives
/// what it makes new (as `toml_edit::value` makes it), the text is that of
/// the document `document_plan` describes.
pub fn config_toml(config: &Config, opacity: Item) -> (r: String)
    ensures
        item_plain(opacity) ==> r@ == toml_text(document_plan(*config, item_model(opacity))),
{
    let d = config_document(config, opacity);
    document_text(&d)
}

} // verus!
