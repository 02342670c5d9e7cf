//! Name-keyed collections: sequences of named entries in which a name is
//! bound at most once and entries keep the order of first insertion.

use vstd::prelude::*;
use crate::text;

verus! {

/// Position of the first binding of a name.
pub open spec fn key_index<V>(m: Seq<(Seq<char>, V)>, k: Seq<char>) -> Option<nat>
    decreases m.len(),
{
    if m.len() == 0 {
        None
    } else if m[0].0 == k {
        Some(0nat)
    } else {
        match key_index(m.drop_first(), k) {
            Some(i) => Some(i + 1),
            None => None,
        }
    }
}

/// The value bound to a name, if any.
pub open spec fn lookup<V>(m: Seq<(Seq<char>, V)>, k: Seq<char>) -> Option<V> {
    match key_index(m, k) {
        Some(i) => Some(m[i as int].1),
        None => None,
    }
}

/// The names of an attribute sequence are pairwise distinct.
pub open spec fn names_unique<V>(m: Seq<(Seq<char>, V)>) -> bool {
    forall|i: int, j: int| 0 <= i < j < m.len() ==> m[i].0 != m[j].0
}

/// Binding a name: replaces the value of its first binding in place, or
/// appends the binding if the name is unbound.
pub open spec fn insert<V>(m: Seq<(Seq<char>, V)>, k: Seq<char>, v: V) -> Seq<(Seq<char>, V)> {
    match key_index(m, k) {
        Some(i) => m.update(i as int, (k, v)),
        None => m.push((k, v)),
    }
}

/// `key_index` finds the first binding of the name.
pub proof fn lemma_key_index<V>(m: Seq<(Seq<char>, V)>, k: Seq<char>)
    ensures
        match key_index(m, k) {
            Some(i) => i < m.len() && m[i as int].0 == k && forall|j: int|
                0 <= j < i ==> m[j].0 != k,
            None => forall|j: int| 0 <= j < m.len() ==> m[j].0 != k,
        },
    decreases m.len(),
{
    if m.len() > 0 && m[0].0 != k {
        lemma_key_index(m.drop_first(), k);
        match key_index(m.drop_first(), k) {
            Some(i) => {
                assert forall|j: int| 0 <= j < i + 1 implies m[j].0 != k by {
                    if j > 0 {
                        assert(m[j] == m.drop_first()[j - 1]);
                    }
                }
            },
            None => {
                assert forall|j: int| 0 <= j < m.len() implies m[j].0 != k by {
                    if j > 0 {
                        assert(m[j] == m.drop_first()[j - 1]);
                    }
                }
            },
        }
    }
}

/// `key_index` is determined by the first binding of the name.
pub proof fn lemma_key_index_at<V>(m: Seq<(Seq<char>, V)>, k: Seq<char>, i: int)
    requires
        0 <= i < m.len(),
        m[i].0 == k,
        forall|j: int| 0 <= j < i ==> m[j].0 != k,
    ensures
        key_index(m, k) == Some(i as nat),
{
    lemma_key_index(m, k);
}

/// Binding a name keeps the names of a sequence pairwise distinct.
pub proof fn lemma_insert_keeps_unique<V>(m: Seq<(Seq<char>, V)>, k: Seq<char>, v: V)
    requires
        names_unique(m),
    ensures
        names_unique(insert(m, k, v)),
{
    lemma_key_index(m, k);
    let r = insert(m, k, v);
    match key_index(m, k) {
        Some(i) => {
            assert forall|a: int, b: int| 0 <= a < b < r.len() implies r[a].0 != r[b].0 by {
                if a == i {
                    assert(r[a].0 == m[a].0);
                } else if b == i {
                    assert(r[b].0 == m[b].0);
                }
            }
        },
        None => {
            assert forall|a: int, b: int| 0 <= a < b < r.len() implies r[a].0 != r[b].0 by {
                if b == m.len() {
                    assert(r[a] == m[a]);
                }
            }
        },
    }
}

/// After binding a name, looking it up gives the bound value, and every
/// other name keeps its value.
pub proof fn lemma_lookup_insert<V>(m: Seq<(Seq<char>, V)>, k: Seq<char>, v: V, q: Seq<char>)
    ensures
        lookup(insert(m, k, v), q) == if q == k {
            Some(v)
        } else {
            lookup(m, q)
        },
{
    lemma_key_index(m, k);
    lemma_key_index(m, q);
    let r = insert(m, k, v);
    lemma_key_index(r, q);
    match key_index(m, k) {
        Some(i) => {
            if q == k {
                lemma_key_index_at(r, q, i as int);
            } else {
                match key_index(m, q) {
                    Some(j) => {
                        lemma_key_index_at(r, q, j as int);
                    },
                    None => {
                        assert forall|a: int| 0 <= a < r.len() implies r[a].0 != q by {
                            if a != i {
                                assert(r[a] == m[a]);
                            }
                        }
                    },
                }
            }
        },
        None => {
            if q == k {
                assert forall|a: int| 0 <= a < m.len() implies r[a].0 != q by {
                    assert(r[a] == m[a]);
                }
                lemma_key_index_at(r, q, m.len() as int);
            } else {
                match key_index(m, q) {
                    Some(j) => {
                        assert forall|a: int| 0 <= a < j implies r[a].0 != q by {
                            assert(r[a] == m[a]);
                        }
                        lemma_key_index_at(r, q, j as int);
                    },
                    None => {
                        assert forall|a: int| 0 <= a < r.len() implies r[a].0 != q by {
                            if a < m.len() {
                                assert(r[a] == m[a]);
                            }
                        }
                    },
                }
            }
        },
    }
}

/// The entries with each value transformed.
pub open spec fn map_values_of<V, W>(m: Seq<(Seq<char>, V)>, f: spec_fn(V) -> W) -> Seq<
    (Seq<char>, W),
> {
    Seq::new(m.len(), |i: int| (m[i].0, f(m[i].1)))
}

/// Transforming the values leaves the position of a name alone.
pub proof fn lemma_key_index_map<V, W>(m: Seq<(Seq<char>, V)>, f: spec_fn(V) -> W, k: Seq<char>)
    ensures
        key_index(map_values_of(m, f), k) == key_index(m, k),
{
    lemma_key_index(m, k);
    lemma_key_index(map_values_of(m, f), k);
    match key_index(m, k) {
        Some(i) => {
            lemma_key_index_at(map_values_of(m, f), k, i as int);
        },
        None => {
            match key_index(map_values_of(m, f), k) {
                Some(j) => {
                    assert(m[j as int].0 == k);
                },
                None => {},
            }
        },
    }
}

/// Binding a name and then transforming the values is transforming first
/// and binding the transformed value.
pub proof fn lemma_insert_map<V, W>(m: Seq<(Seq<char>, V)>, f: spec_fn(V) -> W, k: Seq<char>, v: V)
    ensures
        map_values_of(insert(m, k, v), f) == insert(map_values_of(m, f), k, f(v)),
{
    lemma_key_index_map(m, f, k);
    lemma_key_index(m, k);
    assert(map_values_of(insert(m, k, v), f) =~= insert(map_values_of(m, f), k, f(v)));
}

/// Looking up after transforming the values is transforming what is looked up.
pub proof fn lemma_lookup_map<V, W>(m: Seq<(Seq<char>, V)>, f: spec_fn(V) -> W, k: Seq<char>)
    ensures
        lookup(map_values_of(m, f), k) == match lookup(m, k) {
            Some(v) => Some(f(v)),
            None => None,
        },
{
    lemma_key_index_map(m, f, k);
    lemma_key_index(m, k);
}

/// Binding a name that is not bound appends it.
pub proof fn lemma_insert_fresh<V>(m: Seq<(Seq<char>, V)>, k: Seq<char>, v: V)
    requires
        forall|j: int| 0 <= j < m.len() ==> m[j].0 != k,
    ensures
        insert(m, k, v) == m.push((k, v)),
{
    lemma_key_index(m, k);
    if key_index(m, k) is Some {
        let i = key_index(m, k)->0;
        assert(m[i as int].0 == k);
    }
}

/// Position of the first element that satisfies a predicate.
pub open spec fn first_where<T>(s: Seq<T>, p: spec_fn(T) -> bool) -> Option<int>
    decreases s.len(),
{
    if s.len() == 0 {
        None
    } else if p(s[0]) {
        Some(0)
    } else {
        match first_where(s.drop_first(), p) {
            Some(k) => Some(k + 1),
            None => None,
        }
    }
}

/// `first_where` finds the first element that satisfies the predicate.
pub proof fn lemma_first_where<T>(s: Seq<T>, p: spec_fn(T) -> bool)
    ensures
        match first_where(s, p) {
            Some(k) => 0 <= k < s.len() && p(s[k]) && forall|j: int| 0 <= j < k ==> !p(#[trigger] s[j]),
            None => forall|j: int| 0 <= j < s.len() ==> !p(#[trigger] s[j]),
        },
    decreases s.len(),
{
    if s.len() > 0 && !p(s[0]) {
        lemma_first_where(s.drop_first(), p);
        match first_where(s.drop_first(), p) {
            Some(k) => {
                assert forall|j: int| 0 <= j < k + 1 implies !p(#[trigger] s[j]) by {
                    if j > 0 {
                        assert(s[j] == s.drop_first()[j - 1]);
                    }
                }
            },
            None => {
                assert forall|j: int| 0 <= j < s.len() implies !p(#[trigger] s[j]) by {
                    if j > 0 {
                        assert(s[j] == s.drop_first()[j - 1]);
                    }
                }
            },
        }
    }
}

/// A map from names to values, kept as the sequence of its entries in the
/// order in which their names were first bound.
#[derive(Debug, Clone, PartialEq)]
pub struct NameMap<V> {
    entries: Vec<(String, V)>,
}

impl<V> NameMap<V> {
    /// The entries, as name/value pairs.
    pub closed spec fn model(&self) -> Seq<(Seq<char>, V)> {
        Seq::new(self.entries@.len(), |i: int| (self.entries@[i].0@, self.entries@[i].1))
    }

    /// An empty map.
    pub fn new() -> (r: Self)
        ensures
            r.model() == Seq::<(Seq<char>, V)>::empty(),
    {
        let r = NameMap { entries: Vec::new() };
        assert(r.model() =~= Seq::<(Seq<char>, V)>::empty());
        r
    }

    /// The number of entries.
    pub fn len(&self) -> (n: usize)
        ensures
            n == self.model().len(),
    {
        self.entries.len()
    }

    /// Whether there is no entry.
    pub fn is_empty(&self) -> (b: bool)
        ensures
            b == (self.model().len() == 0),
    {
        self.entries.len() == 0
    }

    /// The name of the entry at a position.
    pub fn name_at(&self, i: usize) -> (r: &String)
        requires
            i < self.model().len(),
        ensures
            r@ == self.model()[i as int].0,
    {
        &self.entries[i].0
    }

    /// The value of the entry at a position.
    pub fn value_at(&self, i: usize) -> (r: &V)
        requires
            i < self.model().len(),
        ensures
            *r == self.model()[i as int].1,
    {
        &self.entries[i].1
    }

    /// Position of the entry with the given name.
    fn position(&self, name: &[char]) -> (r: Option<usize>)
        ensures
            r matches Some(i) ==> key_index(self.model(), name@) == Some(i as nat),
            r is None ==> key_index(self.model(), name@) is None,
    {
        let mut i: usize = 0;
        while i < self.entries.len()
            invariant
                i <= self.entries.len(),
                forall|j: int| 0 <= j < i ==> self.model()[j].0 != name@,
            decreases self.entries.len() - i,
        {
            let nm = text::chars_of(self.entries[i].0.as_str());
            if text::eq_chars(nm.as_slice(), name) {
                proof {
                    lemma_key_index_at(self.model(), name@, i as int);
                }
                return Some(i);
            }
            i = i + 1;
        }
        proof {
            lemma_key_index(self.model(), name@);
        }
        None
    }

    /// The value bound to a name.
    pub fn get(&self, name: &str) -> (r: Option<&V>)
        ensures
            match lookup(self.model(), name@) {
                Some(v) => r matches Some(x) && *x == v,
                None => r is None,
            },
    {
        let nm = text::chars_of(name);
        match self.position(nm.as_slice()) {
            Some(i) => {
                proof {
                    lemma_key_index(self.model(), name@);
                }
                assert(key_index(self.model(), name@) == Some(i as nat));
                assert(lookup(self.model(), name@) == Some(self.model()[i as int].1));
                assert(self.model()[i as int].1 == self.entries@[i as int].1);
                Some(&self.entries[i].1)
            },
            None => None,
        }
    }

    /// Whether a name is bound.
    pub fn contains_key(&self, name: &str) -> (b: bool)
        ensures
            b == lookup(self.model(), name@) is Some,
    {
        self.get(name).is_some()
    }

    /// Binds a name, replacing the value of an existing entry in place.
    pub fn insert(&mut self, name: String, value: V)
        ensures
            final(self).model() == insert(old(self).model(), name@, value),
    {
        let nm = text::chars_of(name.as_str());
        let ghost m = self.model();
        match self.position(nm.as_slice()) {
            Some(i) => {
                proof {
                    lemma_key_index(m, nm@);
                }
                self.entries.set(i, (name, value));
                assert(self.model() =~= insert(m, nm@, value));
            },
            None => {
                self.entries.push((name, value));
                assert(self.model() =~= insert(m, nm@, value));
            },
        }
    }

    /// Removes the entry with the given name, giving its value.
    pub fn remove(&mut self, name: &str) -> (r: Option<V>)
        ensures
            match key_index(old(self).model(), name@) {
                Some(i) => i < old(self).model().len() && r == Some(old(self).model()[i as int].1)
                    && final(self).model() == old(self).model().remove(i as int),
                None => r is None && *final(self) == *old(self),
            },
    {
        let nm = text::chars_of(name);
        let ghost m = self.model();
        match self.position(nm.as_slice()) {
            Some(i) => {
                proof {
                    lemma_key_index(m, nm@);
                }
                let (_, v) = self.entries.remove(i);
                assert(self.model() =~= m.remove(i as int));
                Some(v)
            },
            None => None,
        }
    }

    /// Replaces the value of the entry at a position, keeping its name.
    pub fn set_value_at(&mut self, i: usize, value: V)
        requires
            i < old(self).model().len(),
        ensures
            final(self).model() == old(self).model().update(i as int, (old(self).model()[i as int].0, value)),
    {
        let name = self.entries[i].0.clone();
        let ghost m = self.model();
        self.entries.set(i, (name, value));
        assert(self.model() =~= m.update(i as int, (m[i as int].0, value)));
    }

    /// The values, in entry order.
    pub fn values(&self) -> (r: Vec<&V>)
        ensures
            r@.len() == self.model().len(),
            forall|i: int| 0 <= i < r@.len() ==> *r@[i] == self.model()[i].1,
    {
        let mut r: Vec<&V> = Vec::new();
        let mut i: usize = 0;
        while i < self.entries.len()
            invariant
                i <= self.entries.len(),
                r@.len() == i,
                forall|j: int| 0 <= j < i ==> *r@[j] == self.model()[j].1,
            decreases self.entries.len() - i,
        {
            r.push(&self.entries[i].1);
            i = i + 1;
        }
        r
    }
}

} // verus!
