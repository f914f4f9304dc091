//! A table from workflow states to values, keyed by the states' views.

use vstd::prelude::*;

use crate::json::{duplicate_all, lemma_models_len, models, JsonValue};
use crate::state::FlowState;
use crate::text::{copy_strings, string_views};

verus! {

/// The views of a sequence of states.
pub open spec fn views_of<S: View>(keys: Seq<S>) -> Seq<S::V> {
    keys.map_values(|k: S| k@)
}

/// No two keys share a view.
pub open spec fn distinct_views<S: View>(keys: Seq<S>) -> bool {
    forall|i: int, j: int| 0 <= i < keys.len() && 0 <= j < keys.len() && i != j ==> keys[i]@ != keys[j]@
}

/// Some key has view `k`.
pub open spec fn holds_view<S: View>(keys: Seq<S>, k: S::V) -> bool {
    exists|i: int| 0 <= i < keys.len() && keys[i]@ == k
}

/// A table from states to values. Each state occurs at most once; setting a
/// state that is already present replaces its value and keeps its position.
#[derive(Debug)]
pub struct StateTable<S, N> {
    keys: Vec<S>,
    values: Vec<N>,
}

impl<S: FlowState, N> StateTable<S, N> {
    /// The states of the table, in order.
    pub closed spec fn keys(&self) -> Seq<S> {
        self.keys@
    }

    /// The values of the table, position by position with the keys.
    pub closed spec fn values(&self) -> Seq<N> {
        self.values@
    }

    /// Lengths agree and no state occurs twice.
    pub open spec fn wf(&self) -> bool {
        &&& self.keys().len() == self.values().len()
        &&& distinct_views(self.keys())
    }

    /// Whether the table has an entry for a state with view `k`.
    pub open spec fn contains(&self, k: S::V) -> bool {
        holds_view(self.keys(), k)
    }

    /// An empty table.
    pub fn new() -> (t: Self)
        ensures
            t.wf(),
            t.keys().len() == 0,
            t.values().len() == 0,
    {
        StateTable { keys: Vec::new(), values: Vec::new() }
    }

    /// The number of entries.
    pub fn len(&self) -> (n: usize)
        requires
            self.wf(),
        ensures
            n == self.keys().len(),
    {
        self.keys.len()
    }

    /// Whether the table is empty.
    pub fn is_empty(&self) -> (b: bool)
        requires
            self.wf(),
        ensures
            b == (self.keys().len() == 0),
    {
        self.keys.len() == 0
    }

    /// The position of the entry for `state`, if any.
    pub fn find(&self, state: &S) -> (r: Option<usize>)
        requires
            self.wf(),
        ensures
            match r {
                Some(i) => i < self.keys().len() && self.keys()[i as int]@ == state@,
                None => !self.contains(state@),
            },
    {
        let mut i: usize = 0;
        while i < self.keys.len()
            invariant
                i <= self.keys@.len(),
                self.keys@.len() == self.keys().len(),
                self.keys@ == self.keys(),
                forall|j: int| 0 <= j < i ==> self.keys()[j]@ != state@,
            decreases self.keys@.len() - i,
        {
            if self.keys[i].same_state(state) {
                return Some(i);
            }
            i = i + 1;
        }
        None
    }

    /// The value at a position.
    pub fn value_at(&self, i: usize) -> (v: &N)
        requires
            self.wf(),
            i < self.keys().len(),
        ensures
            *v == self.values()[i as int],
    {
        &self.values[i]
    }

    /// The state at a position.
    pub fn key_at(&self, i: usize) -> (k: &S)
        requires
            self.wf(),
            i < self.keys().len(),
        ensures
            *k == self.keys()[i as int],
    {
        &self.keys[i]
    }

    /// Set the value for `state`: replace it where the state is present,
    /// append a new entry otherwise.
    pub fn set(&mut self, state: S, value: N)
        requires
            old(self).wf(),
        ensures
            final(self).wf(),
            old(self).contains(state@) ==> exists|i: int|
                0 <= i < old(self).keys().len() && old(self).keys()[i]@ == state@
                && final(self).keys() == old(self).keys()
                && final(self).values() == old(self).values().update(i, value),
            !old(self).contains(state@) ==> final(self).keys() == old(self).keys().push(state)
                && final(self).values() == old(self).values().push(value),
    {
        match self.find(&state) {
            Some(i) => {
                self.values.set(i, value);
            },
            None => {
                self.keys.push(state);
                self.values.push(value);
                proof {
                    let ks = self.keys@;
                    assert forall|a: int, b: int|
                        0 <= a < ks.len() && 0 <= b < ks.len() && a != b implies ks[a]@ != ks[b]@ by {
                        if a == ks.len() - 1 {
                            assert(ks[b] == old(self).keys()[b]);
                        } else if b == ks.len() - 1 {
                            assert(ks[a] == old(self).keys()[a]);
                        }
                    }
                }
            },
        }
    }
}

} // verus!

verus! {

/// The position of some key with view `k`.
pub open spec fn position_of<K: View>(keys: Seq<K>, k: K::V) -> int {
    choose|i: int| 0 <= i < keys.len() && keys[i]@ == k
}

/// With distinct views, the key with view `k` is at exactly one position.
pub proof fn lemma_position_unique<K: View>(keys: Seq<K>, i: int)
    requires
        distinct_views(keys),
        0 <= i < keys.len(),
    ensures
        position_of(keys, keys[i]@) == i,
{
    let k = keys[i]@;
    assert(exists|j: int| 0 <= j < keys.len() && keys[j]@ == k);
    let p = position_of(keys, k);
    assert(0 <= p < keys.len() && keys[p]@ == k);
}

/// The map from key views to values that a table of distinct keys stands for.
pub open spec fn map_of<K: View, V>(keys: Seq<K>, vals: Seq<V>) -> Map<K::V, V> {
    Map::new(|k: K::V| holds_view(keys, k), |k: K::V| vals[position_of(keys, k)])
}

/// A table from names to values, where each name occurs at most once.
#[derive(Debug)]
pub struct NameTable<V> {
    keys: Vec<String>,
    values: Vec<V>,
}

impl<V> NameTable<V> {
    /// The names, in the order they were added.
    pub closed spec fn names(&self) -> Seq<String> {
        self.keys@
    }

    /// The values, position by position with the names.
    pub closed spec fn vals(&self) -> Seq<V> {
        self.values@
    }

    /// Lengths agree and no name occurs twice.
    pub open spec fn wf(&self) -> bool {
        &&& self.names().len() == self.vals().len()
        &&& distinct_views(self.names())
    }

    /// The table as a map from names to values.
    pub open spec fn view_map(&self) -> Map<Seq<char>, V> {
        map_of(self.names(), self.vals())
    }

    /// An empty table.
    pub fn new() -> (t: Self)
        ensures
            t.wf(),
            t.names().len() == 0,
            t.view_map() == Map::<Seq<char>, V>::empty(),
    {
        let t = NameTable { keys: Vec::new(), values: Vec::new() };
        assert(t.view_map() =~= Map::<Seq<char>, V>::empty());
        t
    }

    /// The number of entries.
    pub fn len(&self) -> (n: usize)
        requires
            self.wf(),
        ensures
            n == self.names().len(),
            n == self.view_map().dom().len(),
    {
        proof {
            self.lemma_dom_len();
        }
        self.keys.len()
    }

    /// The map has as many keys as the table has names.
    pub proof fn lemma_dom_len(&self)
        requires
            self.wf(),
        ensures
            self.view_map().dom().finite(),
            self.view_map().dom().len() == self.names().len(),
    {
        let views = views_of(self.names());
        assert forall|k: Seq<char>| self.view_map().dom().contains(k) <==> views.to_set().contains(k) by {
            if holds_view(self.names(), k) {
                let j = choose|j: int| 0 <= j < self.names().len() && self.names()[j]@ == k;
                assert(views[j] == k);
            }
            if views.contains(k) {
                let j = choose|j: int| 0 <= j < views.len() && views[j] == k;
                assert(self.names()[j]@ == k);
            }
        }
        assert(self.view_map().dom() =~= views.to_set());
        assert forall|i: int, j: int| 0 <= i < views.len() && 0 <= j < views.len() && i != j implies views[i] != views[j] by {
            assert(views[i] == self.names()[i]@);
            assert(views[j] == self.names()[j]@);
        }
        assert(views.no_duplicates());
        views.unique_seq_to_set();
    }

    /// The position of a name, if present.
    pub fn find(&self, name: &str) -> (r: Option<usize>)
        requires
            self.wf(),
        ensures
            match r {
                Some(i) => i < self.names().len() && self.names()[i as int]@ == name@,
                None => !self.view_map().contains_key(name@),
            },
    {
        let mut i: usize = 0;
        while i < self.keys.len()
            invariant
                i <= self.keys@.len(),
                forall|j: int| 0 <= j < i ==> self.keys@[j]@ != name@,
            decreases self.keys@.len() - i,
        {
            if crate::text::str_eq(self.keys[i].as_str(), name) {
                return Some(i);
            }
            i = i + 1;
        }
        None
    }

    /// The value at a position is the map's value for the name there.
    pub proof fn lemma_at(&self, i: int)
        requires
            self.wf(),
            0 <= i < self.names().len(),
        ensures
            self.view_map().contains_key(self.names()[i]@),
            self.view_map()[self.names()[i]@] == self.vals()[i],
    {
        lemma_position_unique(self.names(), i);
    }

    /// The value for a name.
    pub fn get(&self, name: &str) -> (r: Option<&V>)
        requires
            self.wf(),
        ensures
            match r {
                Some(v) => self.view_map().contains_key(name@) && *v == self.view_map()[name@],
                None => !self.view_map().contains_key(name@),
            },
    {
        match self.find(name) {
            Some(i) => {
                proof {
                    self.lemma_at(i as int);
                }
                Some(&self.values[i])
            },
            None => None,
        }
    }

    /// Whether a name is present.
    pub fn contains_key(&self, name: &str) -> (b: bool)
        requires
            self.wf(),
        ensures
            b == self.view_map().contains_key(name@),
    {
        match self.find(name) {
            Some(i) => {
                proof {
                    self.lemma_at(i as int);
                }
                true
            },
            None => false,
        }
    }

    /// Set the value for a name, replacing an earlier value for it.
    pub fn insert(&mut self, name: String, value: V)
        requires
            old(self).wf(),
        ensures
            final(self).wf(),
            final(self).view_map() == old(self).view_map().insert(name@, value),
            old(self).view_map().contains_key(name@) ==> final(self).names() == old(self).names(),
            !old(self).view_map().contains_key(name@) ==> final(self).names() == old(self).names().push(name),
    {
        match self.find(name.as_str()) {
            Some(i) => {
                self.values.set(i, value);
                proof {
                    let ks = self.keys@;
                    assert forall|k: Seq<char>| #[trigger] holds_view(ks, k) implies
                        self.values@[position_of(ks, k)] == old(self).view_map().insert(name@, value)[k] by {
                        let p = position_of(ks, k);
                        lemma_position_unique(ks, p);
                        if k == name@ {
                            lemma_position_unique(ks, i as int);
                        }
                    }
                    assert(self.view_map() =~= old(self).view_map().insert(name@, value));
                }
            },
            None => {
                let ghost n = name@;
                self.keys.push(name);
                self.values.push(value);
                proof {
                    let ks = self.keys@;
                    let olds = old(self).keys@;
                    assert forall|a: int, b: int|
                        0 <= a < ks.len() && 0 <= b < ks.len() && a != b implies ks[a]@ != ks[b]@ by {
                        if a == ks.len() - 1 {
                            assert(ks[b] == olds[b]);
                        } else if b == ks.len() - 1 {
                            assert(ks[a] == olds[a]);
                        }
                    }
                    assert forall|k: Seq<char>| #[trigger] holds_view(ks, k) implies
                        self.values@[position_of(ks, k)] == old(self).view_map().insert(n, value)[k] by {
                        let p = position_of(ks, k);
                        lemma_position_unique(ks, p);
                        if k != n {
                            assert(p < olds.len());
                            assert(ks[p] == olds[p]);
                            lemma_position_unique(olds, p);
                        }
                    }
                    assert forall|k: Seq<char>| holds_view(ks, k) <==> (holds_view(olds, k) || k == n) by {
                        if holds_view(olds, k) {
                            let j = choose|j: int| 0 <= j < olds.len() && olds[j]@ == k;
                            assert(ks[j] == olds[j]);
                        }
                        if k == n {
                            assert(ks[ks.len() - 1]@ == n);
                        }
                    }
                    assert(self.view_map() =~= old(self).view_map().insert(n, value));
                }
            },
        }
    }

    /// Remove the entry for a name, returning its value.
    pub fn remove(&mut self, name: &str) -> (r: Option<V>)
        requires
            old(self).wf(),
        ensures
            final(self).wf(),
            final(self).view_map() == old(self).view_map().remove(name@),
            match r {
                Some(v) => old(self).view_map().contains_key(name@) && v == old(self).view_map()[name@],
                None => !old(self).view_map().contains_key(name@),
            },
    {
        match self.find(name) {
            Some(i) => {
                proof {
                    self.lemma_at(i as int);
                }
                let ghost olds = self.keys@;
                let ghost oldv = self.values@;
                let _k = self.keys.remove(i);
                let v = self.values.remove(i);
                proof {
                    let ks = self.keys@;
                    assert forall|j: int| 0 <= j < ks.len() implies #[trigger] ks[j] == (if j < i { olds[j] } else { olds[j + 1] }) by {}
                    assert forall|a: int, b: int|
                        0 <= a < ks.len() && 0 <= b < ks.len() && a != b implies ks[a]@ != ks[b]@ by {
                        let oa = if a < i { a } else { a + 1 };
                        let ob = if b < i { b } else { b + 1 };
                        assert(ks[a] == olds[oa]);
                        assert(ks[b] == olds[ob]);
                    }
                    assert forall|k: Seq<char>| holds_view(ks, k) <==> (holds_view(olds, k) && k != name@) by {
                        if holds_view(ks, k) {
                            let j = choose|j: int| 0 <= j < ks.len() && ks[j]@ == k;
                            let oj = if j < i { j } else { j + 1 };
                            assert(ks[j] == olds[oj]);
                            assert(oj != i);
                        }
                        if holds_view(olds, k) && k != name@ {
                            let j = choose|j: int| 0 <= j < olds.len() && olds[j]@ == k;
                            assert(j != i);
                            let nj = if j < i { j } else { j - 1 };
                            assert(ks[nj] == olds[j]);
                        }
                    }
                    assert forall|k: Seq<char>| #[trigger] holds_view(ks, k) implies
                        self.values@[position_of(ks, k)] == old(self).view_map().remove(name@)[k] by {
                        let p = position_of(ks, k);
                        lemma_position_unique(ks, p);
                        let op = if p < i { p } else { p + 1 };
                        assert(ks[p] == olds[op]);
                        assert(self.values@[p] == oldv[op]);
                        lemma_position_unique(olds, op);
                    }
                    assert(self.view_map() =~= old(self).view_map().remove(name@));
                }
                Some(v)
            },
            None => {
                proof {
                    assert(self.view_map() =~= old(self).view_map().remove(name@));
                }
                None
            },
        }
    }

    /// Remove every entry.
    pub fn clear(&mut self)
        ensures
            final(self).wf(),
            final(self).names().len() == 0,
            final(self).view_map() == Map::<Seq<char>, V>::empty(),
    {
        self.keys = Vec::new();
        self.values = Vec::new();
        assert(self.view_map() =~= Map::<Seq<char>, V>::empty());
    }

    /// The name at a position.
    pub fn name_at(&self, i: usize) -> (k: &String)
        requires
            i < self.names().len(),
        ensures
            *k == self.names()[i as int],
    {
        &self.keys[i]
    }

    /// The value at a position.
    pub fn value_at(&self, i: usize) -> (v: &V)
        requires
            self.wf(),
            i < self.names().len(),
        ensures
            *v == self.vals()[i as int],
    {
        &self.values[i]
    }

    /// The names, in the order they were added.
    pub fn name_list(&self) -> (v: Vec<String>)
        requires
            self.wf(),
        ensures
            v@ == self.names(),
            forall|k: Seq<char>| self.view_map().contains_key(k) <==> holds_view(v@, k),
    {
        let mut out: Vec<String> = Vec::new();
        let mut i: usize = 0;
        while i < self.keys.len()
            invariant
                i <= self.keys@.len(),
                out@ == self.keys@.subrange(0, i as int),
            decreases self.keys@.len() - i,
        {
            out.push(self.keys[i].clone());
            proof {
                assert(self.keys@.subrange(0, i + 1) =~= self.keys@.subrange(0, i as int).push(self.keys@[i as int]));
            }
            i = i + 1;
        }
        proof {
            assert(self.keys@.subrange(0, self.keys@.len() as int) =~= self.keys@);
        }
        out
    }
}

impl NameTable<JsonValue> {
    /// A copy of a table of JSON values.
    pub fn duplicate(&self) -> (r: Self)
        requires
            self.wf(),
        ensures
            r.wf(),
            string_views(r.names()) == string_views(self.names()),
            models(r.vals()) == models(self.vals()),
    {
        let keys = copy_strings(&self.keys);
        let values = duplicate_all(&self.values);
        proof {
            lemma_models_len(self.values@);
            lemma_models_len(values@);
            assert(string_views(keys@).len() == keys@.len());
            assert(string_views(self.keys@).len() == self.keys@.len());
            assert(keys@.len() == self.keys@.len());
            assert forall|a: int, b: int| 0 <= a < keys@.len() && 0 <= b < keys@.len() && a != b implies keys@[a]@
                != keys@[b]@ by {
                assert(string_views(keys@)[a] == string_views(self.keys@)[a]);
                assert(string_views(keys@)[b] == string_views(self.keys@)[b]);
                assert(self.keys@[a]@ != self.keys@[b]@);
            }
        }
        NameTable { keys, values }
    }
}

} // verus!
