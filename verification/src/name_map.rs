//! An insertion-ordered map from names to values, kept as a list of pairs.
//! The configuration keys applications and shortcut groups by name with it.

use vstd::prelude::*;

verus! {

/// Position of the first pair of `s` named `k`, or `s.len()` when none is.
pub open spec fn first_position<V>(s: Seq<(String, V)>, k: Seq<char>) -> nat
    decreases s.len(),
{
    if s.len() == 0 {
        0
    } else if s[0].0@ == k {
        0
    } else {
        1 + first_position(s.drop_first(), k)
    }
}

/// Whether some pair of `s` is named `k`.
pub open spec fn has_name<V>(s: Seq<(String, V)>, k: Seq<char>) -> bool {
    exists|i: int| 0 <= i < s.len() && #[trigger] s[i].0@ == k
}

/// The value that `s` holds under the name `k`: that of the first pair so
/// named.
pub open spec fn lookup<V>(s: Seq<(String, V)>, k: Seq<char>) -> Option<V> {
    if first_position(s, k) < s.len() {
        Some(s[first_position(s, k) as int].1)
    } else {
        None
    }
}

/// `s` after storing `v` under the name of `k`: the pair that holds the name
/// is replaced where it stands, or the pair is appended when none holds it.
pub open spec fn insert_pair<V>(s: Seq<(String, V)>, k: String, v: V) -> Seq<(String, V)> {
    if first_position(s, k@) < s.len() {
        s.update(first_position(s, k@) as int, (k, v))
    } else {
        s.push((k, v))
    }
}

/// No name occurs twice in `s`.
pub open spec fn distinct_names<V>(s: Seq<(String, V)>) -> bool {
    forall|i: int, j: int| 0 <= i < j < s.len() ==> s[i].0@ != s[j].0@
}

/// `first_position` is the index of the first pair named `k`.
pub proof fn lemma_first_position<V>(s: Seq<(String, V)>, k: Seq<char>)
    ensures
        first_position(s, k) <= s.len(),
        first_position(s, k) < s.len() ==> s[first_position(s, k) as int].0@ == k,
        forall|j: int| 0 <= j < first_position(s, k) ==> s[j].0@ != k,
        first_position(s, k) < s.len() <==> has_name(s, k),
    decreases s.len(),
{
    if s.len() > 0 && s[0].0@ != k {
        lemma_first_position(s.drop_first(), k);
        assert forall|j: int| 0 <= j < first_position(s, k) implies s[j].0@ != k by {
            if j > 0 {
                assert(s[j] == s.drop_first()[j - 1]);
            }
        }
        if has_name(s, k) {
            let i = choose|i: int| 0 <= i < s.len() && #[trigger] s[i].0@ == k;
            assert(s.drop_first()[i - 1].0@ == k);
        }
        if has_name(s.drop_first(), k) {
            let i = choose|i: int| 0 <= i < s.drop_first().len() && #[trigger] s.drop_first()[i].0@ == k;
            assert(s[i + 1].0@ == k);
        }
    } else if s.len() > 0 {
        assert(s[0].0@ == k);
    }
}

/// An index found by a left-to-right scan is the first position.
pub proof fn lemma_scan_position<V>(s: Seq<(String, V)>, k: Seq<char>, i: int)
    requires
        0 <= i <= s.len(),
        forall|j: int| 0 <= j < i ==> s[j].0@ != k,
        i < s.len() ==> s[i].0@ == k,
    ensures
        first_position(s, k) == i,
{
    lemma_first_position(s, k);
    if first_position(s, k) < i {
        assert(s[first_position(s, k) as int].0@ == k);
    }
}

/// Storing a value under a name makes the name give that value and leaves
/// every other name as it was.
pub proof fn lemma_lookup_after_insert<V>(s: Seq<(String, V)>, k: String, v: V, q: Seq<char>)
    ensures
        lookup(insert_pair(s, k, v), q) == (if q == k@ {
            Some(v)
        } else {
            lookup(s, q)
        }),
{
    let t = insert_pair(s, k, v);
    lemma_first_position(s, k@);
    lemma_first_position(s, q);
    lemma_first_position(t, q);
    let p = first_position(s, k@);
    let pq = first_position(s, q);
    if q == k@ {
        lemma_scan_position(t, q, p as int);
    } else {
        assert forall|j: int| 0 <= j < pq implies t[j].0@ != q by {
            if j != p {
                assert(t[j] == s[j]);
            }
        }
        if pq < s.len() {
            assert(pq != p);
            lemma_scan_position(t, q, pq as int);
        } else if p < s.len() {
            lemma_scan_position(t, q, t.len() as int);
        } else {
            lemma_scan_position(t, q, t.len() as int);
        }
    }
}

/// Storing a value keeps the names distinct.
pub proof fn lemma_insert_distinct<V>(s: Seq<(String, V)>, k: String, v: V)
    requires
        distinct_names(s),
    ensures
        distinct_names(insert_pair(s, k, v)),
{
    lemma_first_position(s, k@);
    let t = insert_pair(s, k, v);
    let p = first_position(s, k@);
    assert forall|i: int, j: int| 0 <= i < j < t.len() implies t[i].0@ != t[j].0@ by {
        if p >= s.len() && j == s.len() {
            assert(s[i].0@ != k@);
        }
    }
}

/// A map from names to values, in the order the names were first stored.
pub struct NameMap<V> {
    pairs: Vec<(String, V)>,
}

impl<V> NameMap<V> {
    /// The pairs of the map, in order.
    pub closed spec fn entries(self) -> Seq<(String, V)> {
        self.pairs@
    }

    /// No name occurs twice. This is the type's invariant: `new` and
    /// `insert` keep it, and nothing else changes names.
    #[verifier::type_invariant]
    pub open spec fn wf(self) -> bool {
        distinct_names(self.entries())
    }

    /// The value stored under `k`.
    pub open spec fn spec_get(self, k: Seq<char>) -> Option<V> {
        lookup(self.entries(), k)
    }

    /// An empty map.
    pub fn new() -> (m: Self)
        ensures
            m.entries() == Seq::<(String, V)>::empty(),
            m.wf(),
    {
        NameMap { pairs: Vec::new() }
    }

    /// The pairs of the map, in order, taken out of it.
    pub fn into_pairs(self) -> (v: Vec<(String, V)>)
        ensures
            v@ == self.entries(),
            distinct_names(v@),
    {
        proof {
            use_type_invariant(&self);
        }
        self.pairs
    }

    /// The number of pairs.
    pub fn len(&self) -> (n: usize)
        ensures
            n == self.entries().len(),
    {
        self.pairs.len()
    }

    /// The name of the pair at `i`.
    pub fn name_at(&self, i: usize) -> (r: &String)
        requires
            i < self.entries().len(),
        ensures
            *r == self.entries()[i as int].0,
    {
        &self.pairs[i].0
    }

    /// The value of the pair at `i`.
    pub fn value_at(&self, i: usize) -> (r: &V)
        requires
            i < self.entries().len(),
        ensures
            *r == self.entries()[i as int].1,
    {
        &self.pairs[i].1
    }

    /// The position of the pair named `k`, if there is one.
    pub fn find(&self, k: &str) -> (r: Option<usize>)
        ensures
            match r {
                Some(i) => i == first_position(self.entries(), k@) && i < self.entries().len(),
                None => first_position(self.entries(), k@) == self.entries().len(),
            },
    {
        let key = k.to_owned();
        let n = self.pairs.len();
        let mut i: usize = 0;
        while i < n
            invariant
                n == self.entries().len(),
                i <= n,
                key@ == k@,
                forall|j: int| 0 <= j < i ==> self.entries()[j].0@ != k@,
            decreases n - i,
        {
            if self.pairs[i].0 == key {
                proof {
                    lemma_scan_position(self.entries(), k@, i as int);
                }
                return Some(i);
            }
            i = i + 1;
        }
        proof {
            lemma_scan_position(self.entries(), k@, n as int);
        }
        None
    }

    /// The value stored under `k`, as `HashMap::get` gives it.
    pub fn get(&self, k: &str) -> (r: Option<&V>)
        ensures
            match r {
                Some(v) => self.spec_get(k@) == Some(*v),
                None => self.spec_get(k@) is None,
            },
    {
        match self.find(k) {
            Some(i) => {
                Some(&self.pairs[i].1)
            },
            None => None,
        }
    }

    /// Stores `v` under `k`: the pair already named `k` gets the new value
    /// where it stands, else the pair is appended.
    pub fn insert(&mut self, k: String, v: V)
        ensures
            final(self).entries() == insert_pair(old(self).entries(), k, v),
            old(self).wf() ==> final(self).wf(),
            forall|q: Seq<char>| #[trigger]
                final(self).spec_get(q) == (if q == k@ {
                    Some(v)
                } else {
                    old(self).spec_get(q)
                }),
    {
        proof {
            assert forall|q: Seq<char>|
                #[trigger] lookup(insert_pair(self.entries(), k, v), q) == (if q == k@ {
                    Some(v)
                } else {
                    lookup(self.entries(), q)
                }) by {
                lemma_lookup_after_insert(self.entries(), k, v, q);
            }
            use_type_invariant(&*self);
            lemma_insert_distinct(self.entries(), k, v);
        }
        let found = self.find(k.as_str());
        let mut pairs: Vec<(String, V)> = Vec::new();
        std::mem::swap(&mut pairs, &mut self.pairs);
        match found {
            Some(i) => {
                pairs.set(i, (k, v));
            },
            None => {
                pairs.push((k, v));
            },
        }
        self.pairs = pairs;
    }

    /// Takes the pair at `i` out of the map.
    pub fn remove_at(&mut self, i: usize) -> (r: (String, V))
        requires
            i < old(self).entries().len(),
        ensures
            r == old(self).entries()[i as int],
            final(self).entries() == old(self).entries().remove(i as int),
    {
        proof {
            use_type_invariant(&*self);
        }
        let mut pairs: Vec<(String, V)> = Vec::new();
        std::mem::swap(&mut pairs, &mut self.pairs);
        let ghost before = pairs@;
        let r = pairs.remove(i);
        proof {
            assert forall|a: int, b: int| 0 <= a < b < pairs@.len() implies pairs@[a].0@
                != pairs@[b].0@ by {
                if a >= i {
                    assert(pairs@[a] == before[a + 1]);
                    assert(pairs@[b] == before[b + 1]);
                } else if b >= i {
                    assert(pairs@[a] == before[a]);
                    assert(pairs@[b] == before[b + 1]);
                } else {
                    assert(pairs@[a] == before[a]);
                    assert(pairs@[b] == before[b]);
                }
            }
        }
        self.pairs = pairs;
        r
    }

    /// Puts a pair at `i`, under a name the map does not hold.
    pub fn insert_at(&mut self, i: usize, k: String, v: V)
        requires
            i <= old(self).entries().len(),
            !has_name(old(self).entries(), k@),
        ensures
            final(self).entries() == old(self).entries().insert(i as int, (k, v)),
    {
        proof {
            use_type_invariant(&*self);
        }
        let mut pairs: Vec<(String, V)> = Vec::new();
        std::mem::swap(&mut pairs, &mut self.pairs);
        let ghost before = pairs@;
        pairs.insert(i, (k, v));
        proof {
            assert forall|a: int, b: int| 0 <= a < b < pairs@.len() implies pairs@[a].0@
                != pairs@[b].0@ by {
                if a == i {
                    assert(pairs@[b] == before[b - 1]);
                } else if b == i {
                    assert(pairs@[a] == before[a]);
                } else if a > i {
                    assert(pairs@[a] == before[a - 1]);
                    assert(pairs@[b] == before[b - 1]);
                } else if b > i {
                    assert(pairs@[a] == before[a]);
                    assert(pairs@[b] == before[b - 1]);
                } else {
                    assert(pairs@[a] == before[a]);
                    assert(pairs@[b] == before[b]);
                }
            }
        }
        self.pairs = pairs;
    }
}

} // verus!
