//! The order of names: lexicographic by code point, which is the order
//! Rust gives `str` (UTF-8 keeps code-point order byte by byte), and a
//! stable sort of a map's pairs by name.

use vstd::prelude::*;

use crate::name_map::NameMap;
use crate::text::chars_of;

verus! {

/// Whether `a` comes strictly before `b`.
pub open spec fn name_lt(a: Seq<char>, b: Seq<char>) -> bool
    decreases a.len(),
{
    if b.len() == 0 {
        false
    } else if a.len() == 0 {
        true
    } else if a[0] != b[0] {
        (a[0] as int) < (b[0] as int)
    } else {
        name_lt(a.drop_first(), b.drop_first())
    }
}

/// `name_lt` is transitive.
pub proof fn lemma_name_lt_transitive(a: Seq<char>, b: Seq<char>, c: Seq<char>)
    requires
        name_lt(a, b),
        name_lt(b, c),
    ensures
        name_lt(a, c),
    decreases a.len(),
{
    if a.len() > 0 && b.len() > 0 && c.len() > 0 && a[0] == b[0] && b[0] == c[0] {
        lemma_name_lt_transitive(a.drop_first(), b.drop_first(), c.drop_first());
    }
}

/// `name_lt` is irreflexive.
pub proof fn lemma_name_lt_irreflexive(a: Seq<char>)
    ensures
        !name_lt(a, a),
    decreases a.len(),
{
    if a.len() > 0 {
        lemma_name_lt_irreflexive(a.drop_first());
    }
}

/// Whether `a` comes strictly before `b`, as `a < b` on `str`.
pub fn str_lt(a: &str, b: &str) -> (r: bool)
    ensures
        r == name_lt(a@, b@),
{
    let av = chars_of(a);
    let bv = chars_of(b);
    let mut i: usize = 0;
    assert(a@.skip(0) =~= a@);
    assert(b@.skip(0) =~= b@);
    while i < av.len() && i < bv.len() && av[i] == bv[i]
        invariant
            av@ == a@,
            bv@ == b@,
            i <= av@.len(),
            i <= bv@.len(),
            name_lt(a@, b@) == name_lt(a@.skip(i as int), b@.skip(i as int)),
        decreases av@.len() - i,
    {
        proof {
            assert(a@.skip(i as int).drop_first() =~= a@.skip(i + 1));
            assert(b@.skip(i as int).drop_first() =~= b@.skip(i + 1));
        }
        i = i + 1;
    }
    if i == bv.len() {
        false
    } else if i == av.len() {
        true
    } else {
        av[i] < bv[i]
    }
}

/// `order` lists each position below `names.len()` once, with the names in
/// order and equal names in their original order: the stable sort.
pub open spec fn is_stable_sort(names: Seq<Seq<char>>, order: Seq<usize>) -> bool {
    &&& order.len() == names.len()
    &&& forall|i: int| 0 <= i < order.len() ==> #[trigger] order[i] < names.len()
    &&& forall|x: usize| x < names.len() ==> #[trigger] order.contains(x)
    &&& forall|i: int, j: int| 0 <= i < j < order.len() ==> order[i] != order[j]
    &&& forall|i: int, j: int|
        0 <= i < j < order.len() ==> !name_lt(names[order[j] as int], names[order[i] as int])
    &&& forall|i: int, j: int|
        0 <= i < j < order.len() && names[order[i] as int] == names[order[j] as int] ==> order[i]
            < order[j]
}

/// The names of the pairs of a map, in order.
pub open spec fn names_of<V>(s: Seq<(String, V)>) -> Seq<Seq<char>> {
    s.map_values(|p: (String, V)| p.0@)
}

/// `order` lists each position below `n` once, all of them.
spec fn is_sort_so_far(names: Seq<Seq<char>>, order: Seq<usize>, n: int) -> bool {
    &&& order.len() == n
    &&& forall|i: int| 0 <= i < order.len() ==> #[trigger] order[i] < n
    &&& forall|x: usize| x < n ==> #[trigger] order.contains(x)
    &&& forall|i: int, j: int| 0 <= i < j < order.len() ==> order[i] != order[j]
    &&& forall|i: int, j: int|
        0 <= i < j < order.len() ==> !name_lt(names[order[j] as int], names[order[i] as int])
    &&& forall|i: int, j: int|
        0 <= i < j < order.len() && names[order[i] as int] == names[order[j] as int] ==> order[i]
            < order[j]
}

/// The positions of the pairs of `map`, stably sorted by name: the order
/// in which the overlay lists groups and the saved file lists applications
/// and groups.
pub fn sorted_positions<V>(map: &NameMap<V>) -> (order: Vec<usize>)
    ensures
        is_stable_sort(names_of(map.entries()), order@),
        order@ == stable_order(names_of(map.entries())),
{
    let ghost names = names_of(map.entries());
    let n = map.len();
    let mut order: Vec<usize> = Vec::new();
    let mut k: usize = 0;
    while k < n
        invariant
            n == map.entries().len(),
            names == names_of(map.entries()),
            k <= n,
            is_sort_so_far(names, order@, k as int),
        decreases n - k,
    {
        let name = map.name_at(k);
        let mut p: usize = 0;
        while p < order.len() && !str_lt(name.as_str(), map.name_at(order[p]).as_str())
            invariant
                n == map.entries().len(),
                names == names_of(map.entries()),
                k < n,
                *name == map.entries()[k as int].0,
                is_sort_so_far(names, order@, k as int),
                p <= order@.len(),
                forall|q: int| 0 <= q < p ==> !name_lt(names[k as int], names[order@[q] as int]),
            decreases order@.len() - p,
        {
            p = p + 1;
        }
        let ghost old_order = order@;
        proof {
            if p < old_order.len() {
                assert(name_lt(names[k as int], names[old_order[p as int] as int]));
            }
        }
        order.insert(p, k);
        proof {
            let o = order@;
            assert(o == old_order.insert(p as int, k));
            assert forall|i: int| 0 <= i < o.len() implies #[trigger] o[i] < k + 1 by {
                if i > p {
                    assert(o[i] == old_order[i - 1]);
                }
            }
            assert forall|x: usize| x < k + 1 implies #[trigger] o.contains(x) by {
                if x == k {
                    assert(o[p as int] == k);
                } else {
                    assert(old_order.contains(x));
                    let q = choose|q: int| 0 <= q < old_order.len() && old_order[q] == x;
                    if q < p {
                        assert(o[q] == x);
                    } else {
                        assert(o[q + 1] == x);
                    }
                }
            }
            assert forall|i: int, j: int| 0 <= i < j < o.len() implies o[i] != o[j] by {
                if i < p && j > p {
                    assert(o[j] == old_order[j - 1]);
                } else if i > p {
                    assert(o[i] == old_order[i - 1]);
                    assert(o[j] == old_order[j - 1]);
                } else if i == p {
                    assert(o[j] == old_order[j - 1]);
                }
            }
            assert forall|i: int, j: int| 0 <= i < j < o.len() implies !name_lt(
                names[o[j] as int],
                names[o[i] as int],
            ) by {
                if j < p {
                } else if j == p {
                    assert(o[i] == old_order[i]);
                } else if i < p {
                    assert(o[j] == old_order[j - 1]);
                    assert(o[i] == old_order[i]);
                } else if i == p {
                    assert(o[j] == old_order[j - 1]);
                    assert(name_lt(names[k as int], names[old_order[p as int] as int]));
                    if j - 1 > p {
                        assert(!name_lt(
                            names[old_order[j - 1] as int],
                            names[old_order[p as int] as int],
                        ));
                    }
                    if name_lt(names[o[j] as int], names[k as int]) {
                        lemma_name_lt_transitive(
                            names[o[j] as int],
                            names[k as int],
                            names[old_order[p as int] as int],
                        );
                        if j - 1 == p {
                            lemma_name_lt_irreflexive(names[o[j] as int]);
                        }
                    }
                } else {
                    assert(o[i] == old_order[i - 1]);
                    assert(o[j] == old_order[j - 1]);
                }
            }
            assert forall|i: int, j: int|
                0 <= i < j < o.len() && names[o[i] as int] == names[o[j] as int] implies o[i]
                < o[j] by {
                if j < p {
                } else if j == p {
                    assert(o[i] == old_order[i]);
                } else if i < p {
                    assert(o[j] == old_order[j - 1]);
                    assert(o[i] == old_order[i]);
                } else if i == p {
                    assert(o[j] == old_order[j - 1]);
                    assert(name_lt(names[k as int], names[old_order[p as int] as int]));
                    if j - 1 > p {
                        assert(!name_lt(
                            names[old_order[j - 1] as int],
                            names[old_order[p as int] as int],
                        ));
                        if names[o[j] as int] == names[k as int] {
                            assert(false);
                        }
                    } else {
                        lemma_name_lt_irreflexive(names[k as int]);
                    }
                } else {
                    assert(o[i] == old_order[i - 1]);
                    assert(o[j] == old_order[j - 1]);
                }
            }
        }
        k = k + 1;
    }
    assert(names.len() == n);
    proof {
        lemma_stable_sort_unique(names, order@);
    }
    order
}

/// Of two different names, one comes before the other.
pub proof fn lemma_name_lt_total(a: Seq<char>, b: Seq<char>)
    requires
        a != b,
    ensures
        name_lt(a, b) || name_lt(b, a),
    decreases a.len(),
{
    if a.len() > 0 && b.len() > 0 && a[0] == b[0] {
        if a.drop_first() == b.drop_first() {
            assert(a =~= seq![a[0]] + a.drop_first());
            assert(b =~= seq![b[0]] + b.drop_first());
        }
        lemma_name_lt_total(a.drop_first(), b.drop_first());
    } else if a.len() == 0 && b.len() == 0 {
        assert(a =~= b);
    } else if a.len() > 0 && b.len() > 0 {
        assert((a[0] as int) != (b[0] as int));
    }
}

/// Position `i` comes before position `j` in the stable sort of `names`.
pub open spec fn comes_before(names: Seq<Seq<char>>, i: usize, j: usize) -> bool {
    name_lt(names[i as int], names[j as int]) || (names[i as int] == names[j as int] && i < j)
}

proof fn lemma_comes_before_asymmetric(names: Seq<Seq<char>>, i: usize, j: usize)
    requires
        comes_before(names, i, j),
    ensures
        !comes_before(names, j, i),
{
    if name_lt(names[i as int], names[j as int]) && name_lt(names[j as int], names[i as int]) {
        lemma_name_lt_transitive(names[i as int], names[j as int], names[i as int]);
        lemma_name_lt_irreflexive(names[i as int]);
    }
    if name_lt(names[i as int], names[j as int]) && names[i as int] == names[j as int] {
        lemma_name_lt_irreflexive(names[i as int]);
    }
    if name_lt(names[j as int], names[i as int]) && names[i as int] == names[j as int] {
        lemma_name_lt_irreflexive(names[i as int]);
    }
}

/// Each position comes before every later one.
pub open spec fn ascending(names: Seq<Seq<char>>, o: Seq<usize>) -> bool {
    forall|a: int, b: int| 0 <= a < b < o.len() ==> comes_before(names, #[trigger] o[a], #[trigger] o[b])
}

proof fn lemma_stable_sort_ascending(names: Seq<Seq<char>>, o: Seq<usize>)
    requires
        is_stable_sort(names, o),
    ensures
        ascending(names, o),
{
    assert forall|a: int, b: int| 0 <= a < b < o.len() implies comes_before(
        names,
        #[trigger] o[a],
        #[trigger] o[b],
    ) by {
        if names[o[a] as int] != names[o[b] as int] {
            lemma_name_lt_total(names[o[a] as int], names[o[b] as int]);
        }
    }
}

proof fn lemma_ascending_unique(names: Seq<Seq<char>>, a: Seq<usize>, b: Seq<usize>)
    requires
        a.len() == b.len(),
        ascending(names, a),
        ascending(names, b),
        forall|x: usize| a.contains(x) <==> b.contains(x),
    ensures
        a == b,
    decreases a.len(),
{
    if a.len() > 0 {
        if a[0] != b[0] {
            assert(b.contains(a[0]));
            let j = choose|j: int| 0 <= j < b.len() && b[j] == a[0];
            assert(a.contains(b[0]));
            let k = choose|k: int| 0 <= k < a.len() && a[k] == b[0];
            assert(comes_before(names, b[0], b[j]));
            assert(comes_before(names, a[0], a[k]));
            lemma_comes_before_asymmetric(names, b[0], a[0]);
        }
        let a1 = a.drop_first();
        let b1 = b.drop_first();
        assert forall|a2: int, b2: int| 0 <= a2 < b2 < a1.len() implies comes_before(
            names,
            #[trigger] a1[a2],
            #[trigger] a1[b2],
        ) by {
            assert(a1[a2] == a[a2 + 1]);
            assert(a1[b2] == a[b2 + 1]);
        }
        assert forall|a2: int, b2: int| 0 <= a2 < b2 < b1.len() implies comes_before(
            names,
            #[trigger] b1[a2],
            #[trigger] b1[b2],
        ) by {
            assert(b1[a2] == b[a2 + 1]);
            assert(b1[b2] == b[b2 + 1]);
        }
        assert forall|x: usize| a1.contains(x) <==> b1.contains(x) by {
            if a1.contains(x) {
                let q = choose|q: int| 0 <= q < a1.len() && a1[q] == x;
                assert(a[q + 1] == x);
                assert(comes_before(names, a[0], a[q + 1]));
                lemma_comes_before_asymmetric(names, a[0], x);
                assert(x != a[0]);
                assert(b.contains(x));
                let r = choose|r: int| 0 <= r < b.len() && b[r] == x;
                assert(r != 0);
                assert(b1[r - 1] == x);
            }
            if b1.contains(x) {
                let q = choose|q: int| 0 <= q < b1.len() && b1[q] == x;
                assert(b[q + 1] == x);
                assert(comes_before(names, b[0], b[q + 1]));
                lemma_comes_before_asymmetric(names, b[0], x);
                assert(x != b[0]);
                assert(a.contains(x));
                let r = choose|r: int| 0 <= r < a.len() && a[r] == x;
                assert(r != 0);
                assert(a1[r - 1] == x);
            }
        }
        lemma_ascending_unique(names, a1, b1);
        assert forall|i: int| 0 <= i < a.len() implies a[i] == b[i] by {
            if i > 0 {
                assert(a[i] == a1[i - 1]);
                assert(b[i] == b1[i - 1]);
            }
        }
        assert(a =~= b);
    }
}

/// The stable sort of `names`: the order of positions that lists names in
/// order and equal names in their original order.
pub open spec fn stable_order(names: Seq<Seq<char>>) -> Seq<usize> {
    choose|o: Seq<usize>| is_stable_sort(names, o)
}

/// A stable sort is unique: any order that is one is `stable_order`.
pub proof fn lemma_stable_sort_unique(names: Seq<Seq<char>>, o: Seq<usize>)
    requires
        is_stable_sort(names, o),
    ensures
        o == stable_order(names),
{
    let c = stable_order(names);
    assert(is_stable_sort(names, c));
    lemma_stable_sort_ascending(names, o);
    lemma_stable_sort_ascending(names, c);
    assert forall|x: usize| o.contains(x) <==> c.contains(x) by {
        if o.contains(x) {
            let q = choose|q: int| 0 <= q < o.len() && o[q] == x;
            assert(o[q] < names.len());
        }
        if c.contains(x) {
            let q = choose|q: int| 0 <= q < c.len() && c[q] == x;
            assert(c[q] < names.len());
        }
    }
    lemma_ascending_unique(names, o, c);
}

} // verus!
