//! A map from strings to values that remembers the order in which keys first
//! arrived; headers and request parameters are kept in it.

use vstd::prelude::*;

verus! {

/// The keys of `es`, in order.
pub open spec fn entry_keys<V>(es: Seq<(Seq<char>, V)>) -> Seq<Seq<char>> {
    es.map_values(|e: (Seq<char>, V)| e.0)
}

/// Whether `k` is the key of some entry of `es`.
pub open spec fn has_key<V>(es: Seq<(Seq<char>, V)>, k: Seq<char>) -> bool {
    exists|i: int| 0 <= i < es.len() && #[trigger] es[i].0 == k
}

/// The position of the entry with key `k` (meaningful where `has_key`).
pub open spec fn key_index<V>(es: Seq<(Seq<char>, V)>, k: Seq<char>) -> int {
    choose|i: int| 0 <= i < es.len() && #[trigger] es[i].0 == k
}

/// The entries read as a map from key to value.
pub open spec fn entries_map<V>(es: Seq<(Seq<char>, V)>) -> Map<Seq<char>, V> {
    Map::new(|k: Seq<char>| has_key(es, k), |k: Seq<char>| es[key_index(es, k)].1)
}

/// The entries after setting `k` to `v`: an existing entry keeps its place,
/// a new key goes last.
pub open spec fn entries_insert<V>(es: Seq<(Seq<char>, V)>, k: Seq<char>, v: V) -> Seq<(Seq<char>, V)> {
    if has_key(es, k) {
        es.update(key_index(es, k), (k, v))
    } else {
        es.push((k, v))
    }
}

/// The entries without the one for `k`, the others in their order.
pub open spec fn entries_remove<V>(es: Seq<(Seq<char>, V)>, k: Seq<char>) -> Seq<(Seq<char>, V)> {
    if has_key(es, k) {
        es.remove(key_index(es, k))
    } else {
        es
    }
}

/// The value of `k`, if it has one.
pub open spec fn entries_get<V>(es: Seq<(Seq<char>, V)>, k: Seq<char>) -> Option<V> {
    if has_key(es, k) { Some(es[key_index(es, k)].1) } else { None }
}

/// The entry at `i` is the one `key_index` finds for its key.
pub proof fn lemma_key_index<V>(es: Seq<(Seq<char>, V)>, i: int)
    requires
        entry_keys(es).no_duplicates(),
        0 <= i < es.len(),
    ensures
        has_key(es, es[i].0),
        key_index(es, es[i].0) == i,
{
    assert(es[i].0 == es[i].0);
    let j = key_index(es, es[i].0);
    assert(entry_keys(es)[j] == entry_keys(es)[i]);
}

/// Setting a key keeps the keys distinct and is `Map::insert` on the map read.
pub proof fn lemma_entries_insert<V>(es: Seq<(Seq<char>, V)>, k: Seq<char>, v: V)
    requires
        entry_keys(es).no_duplicates(),
    ensures
        entry_keys(entries_insert(es, k, v)).no_duplicates(),
        entries_map(entries_insert(es, k, v)) == entries_map(es).insert(k, v),
        entries_insert(es, k, v).len() == es.len() + (if has_key(es, k) { 0int } else { 1int }),
{
    let es2 = entries_insert(es, k, v);
    if has_key(es, k) {
        let i = key_index(es, k);
        assert(entry_keys(es2) =~= entry_keys(es));
        assert forall|key: Seq<char>| #![auto] has_key(es2, key) == (has_key(es, key) || key == k) by {
            if has_key(es, key) {
                let j = key_index(es, key);
                assert(es2[j].0 == key);
            }
            if has_key(es2, key) {
                let j = key_index(es2, key);
                assert(es[j].0 == key);
            }
        }
        assert forall|key: Seq<char>| #![auto] has_key(es2, key) implies entries_map(es2)[key] == entries_map(es).insert(k, v)[key] by {
            let j = key_index(es2, key);
            lemma_key_index(es2, j);
            lemma_key_index(es2, i);
            assert(es2[i].0 == k);
            if key != k {
                assert(j != i);
                assert(es[j] == es2[j]);
                lemma_key_index(es, j);
                assert(entries_map(es)[key] == es[j].1);
            } else {
                assert(j == i);
            }
        }
        assert(entries_map(es2) =~= entries_map(es).insert(k, v));
    } else {
        assert(entry_keys(es2) =~= entry_keys(es).push(k));
        assert forall|a: int, b: int| 0 <= a < b < entry_keys(es2).len() implies entry_keys(es2)[a] != entry_keys(es2)[b] by {
            if b == es.len() {
                assert(es[a].0 == entry_keys(es)[a]);
            }
        }
        assert forall|key: Seq<char>| #![auto] has_key(es2, key) == (has_key(es, key) || key == k) by {
            if has_key(es, key) {
                let j = key_index(es, key);
                assert(es2[j].0 == key);
            }
            if key == k {
                assert(es2[es.len() as int].0 == k);
            }
            if has_key(es2, key) {
                let j = key_index(es2, key);
                if j < es.len() {
                    assert(es[j].0 == key);
                }
            }
        }
        assert forall|key: Seq<char>| #![auto] has_key(es2, key) implies entries_map(es2)[key] == entries_map(es).insert(k, v)[key] by {
            let j = key_index(es2, key);
            lemma_key_index(es2, j);
            if key != k {
                lemma_key_index(es, j);
            }
        }
        assert(entries_map(es2) =~= entries_map(es).insert(k, v));
    }
}

/// Removing a key keeps the keys distinct and is `Map::remove` on the map read.
pub proof fn lemma_entries_remove<V>(es: Seq<(Seq<char>, V)>, k: Seq<char>)
    requires
        entry_keys(es).no_duplicates(),
    ensures
        entry_keys(entries_remove(es, k)).no_duplicates(),
        entries_map(entries_remove(es, k)) == entries_map(es).remove(k),
{
    let es2 = entries_remove(es, k);
    if has_key(es, k) {
        let i = key_index(es, k);
        assert(entry_keys(es2) =~= entry_keys(es).remove(i));
        assert forall|a: int, b: int| 0 <= a < b < entry_keys(es2).len() implies entry_keys(es2)[a] != entry_keys(es2)[b] by {
            let a2 = if a < i { a } else { a + 1 };
            let b2 = if b < i { b } else { b + 1 };
            assert(entry_keys(es2)[a] == entry_keys(es)[a2]);
            assert(entry_keys(es2)[b] == entry_keys(es)[b2]);
        }
        assert forall|key: Seq<char>| #![auto] has_key(es2, key) == (has_key(es, key) && key != k) by {
            if has_key(es, key) && key != k {
                let j = key_index(es, key);
                if j < i {
                    assert(es2[j].0 == key);
                } else {
                    assert(j != i);
                    assert(es2[j - 1].0 == key);
                }
            }
            if has_key(es2, key) {
                let j = key_index(es2, key);
                let j2 = if j < i { j } else { j + 1 };
                assert(es[j2].0 == key);
                lemma_key_index(es, j2);
            }
        }
        assert forall|key: Seq<char>| #![auto] has_key(es2, key) implies entries_map(es2)[key] == entries_map(es)[key] by {
            let j = key_index(es2, key);
            lemma_key_index(es2, j);
            let j2 = if j < i { j } else { j + 1 };
            assert(es[j2] == es2[j]);
            lemma_key_index(es, j2);
        }
        assert(entries_map(es2) =~= entries_map(es).remove(k));
    } else {
        assert(entries_map(es2) =~= entries_map(es).remove(k));
    }
}

/// An ordered map from strings to values with distinct keys.
pub struct StringMap<V: DeepView> {
    keys: Vec<String>,
    values: Vec<V>,
}

impl<V: DeepView> StringMap<V> {
    /// The entries in order, keys and values read through their views.
    pub closed spec fn entries(&self) -> Seq<(Seq<char>, V::V)> {
        Self::entries_of(self.keys@, self.values@)
    }

    closed spec fn entries_of(keys: Seq<String>, values: Seq<V>) -> Seq<(Seq<char>, V::V)> {
        Seq::new(keys.len(), |i: int| (keys[i]@, values[i].deep_view()))
    }

    #[verifier::type_invariant]
    closed spec fn inv(self) -> bool {
        &&& self.keys@.len() == self.values@.len()
        &&& entry_keys(self.entries()).no_duplicates()
    }

    /// The map the entries stand for.
    pub open spec fn spec_map(&self) -> Map<Seq<char>, V::V> {
        entries_map(self.entries())
    }

    /// The keys are distinct: every map of this type keeps them so.
    pub fn keys_are_distinct(&self)
        ensures
            entry_keys(self.entries()).no_duplicates(),
    {
        proof { use_type_invariant(self); }
    }

    pub fn new() -> (r: Self)
        ensures
            r.entries() == Seq::<(Seq<char>, V::V)>::empty(),
            entry_keys(r.entries()).no_duplicates(),
    {
        let r = StringMap { keys: Vec::new(), values: Vec::new() };
        assert(r.entries() =~= Seq::<(Seq<char>, V::V)>::empty());
        r
    }

    pub fn len(&self) -> (r: usize)
        ensures
            r == self.entries().len(),
    {
        proof { use_type_invariant(self); }
        self.keys.len()
    }

    pub fn is_empty(&self) -> (r: bool)
        ensures
            r == (self.entries().len() == 0),
    {
        proof { use_type_invariant(self); }
        self.keys.len() == 0
    }

    /// The position of the entry with key `k`, if there is one.
    pub fn find(&self, k: &str) -> (r: Option<usize>)
        ensures
            r is Some <==> has_key(self.entries(), k@),
            r matches Some(i) ==> i < self.entries().len() && self.entries()[i as int].0 == k@
                && key_index(self.entries(), k@) == i,
    {
        proof { use_type_invariant(self); }
        let key = String::from_str(k);
        let mut i: usize = 0;
        while i < self.keys.len()
            invariant
                i <= self.keys@.len(),
                key@ == k@,
                self.keys@.len() == self.values@.len(),
                entry_keys(self.entries()).no_duplicates(),
                forall|j: int| 0 <= j < i ==> self.entries()[j].0 != k@,
            decreases self.keys.len() - i,
        {
            if self.keys[i] == key {
                proof { lemma_key_index(self.entries(), i as int); }
                return Some(i);
            }
            i = i + 1;
        }
        None
    }

    /// The key of the entry at position `i`.
    pub fn key_at(&self, i: usize) -> (r: &String)
        requires
            i < self.entries().len(),
        ensures
            r@ == self.entries()[i as int].0,
    {
        proof { use_type_invariant(self); }
        &self.keys[i]
    }

    /// The value of the entry at position `i`.
    pub fn value_at(&self, i: usize) -> (r: &V)
        requires
            i < self.entries().len(),
        ensures
            r.deep_view() == self.entries()[i as int].1,
    {
        proof { use_type_invariant(self); }
        &self.values[i]
    }

    pub fn contains_key(&self, k: &str) -> (r: bool)
        ensures
            r == has_key(self.entries(), k@),
            r == self.spec_map().contains_key(k@),
    {
        self.find(k).is_some()
    }

    /// The value of `k`, if it has one.
    pub fn get(&self, k: &str) -> (r: Option<&V>)
        ensures
            r is Some == has_key(self.entries(), k@),
            r matches Some(v) ==> Some(v.deep_view()) == entries_get(self.entries(), k@),
            r is None ==> entries_get(self.entries(), k@) is None,
    {
        match self.find(k) {
            Some(i) => Some(self.value_at(i)),
            None => None,
        }
    }

    /// Sets `k` to `v`: an existing entry keeps its place, a new one goes last.
    pub fn insert(&mut self, k: String, v: V)
        ensures
            final(self).entries() == entries_insert(old(self).entries(), k@, v.deep_view()),
            final(self).spec_map() == old(self).spec_map().insert(k@, v.deep_view()),
            entry_keys(final(self).entries()).no_duplicates(),
    {
        proof { use_type_invariant(&*self); }
        let ghost es = self.entries();
        let ghost kv = k@;
        let ghost vv = v.deep_view();
        proof { lemma_entries_insert(es, kv, vv); }
        let found = self.find(k.as_str());
        let mut whole = StringMap::new();
        std::mem::swap(&mut whole, self);
        let StringMap { mut keys, mut values } = whole;
        assert(Self::entries_of(keys@, values@) == es);
        match found {
            Some(i) => {
                values.set(i, v);
                assert(Self::entries_of(keys@, values@) =~= es.update(i as int, (kv, vv)));
            },
            None => {
                keys.push(k);
                values.push(v);
                assert(Self::entries_of(keys@, values@) =~= es.push((kv, vv)));
            },
        }
        *self = StringMap { keys, values };
    }

    /// Removes the entry for `k`, if there is one; the others keep their order.
    pub fn remove(&mut self, k: &str)
        ensures
            final(self).entries() == entries_remove(old(self).entries(), k@),
            final(self).spec_map() == old(self).spec_map().remove(k@),
            entry_keys(final(self).entries()).no_duplicates(),
    {
        proof { use_type_invariant(&*self); }
        let ghost es = self.entries();
        proof { lemma_entries_remove(es, k@); }
        let found = self.find(k);
        let mut whole = StringMap::new();
        std::mem::swap(&mut whole, self);
        let StringMap { mut keys, mut values } = whole;
        assert(Self::entries_of(keys@, values@) == es);
        match found {
            Some(i) => {
                keys.remove(i);
                values.remove(i);
                assert(Self::entries_of(keys@, values@) =~= es.remove(i as int));
            },
            None => {},
        }
        *self = StringMap { keys, values };
    }

    /// Removes every entry.
    pub fn clear(&mut self)
        ensures
            final(self).entries() == Seq::<(Seq<char>, V::V)>::empty(),
    {
        *self = StringMap::new();
        assert(self.entries() =~= Seq::<(Seq<char>, V::V)>::empty());
    }

    /// The keys, in order.
    pub fn keys(&self) -> (r: Vec<String>)
        ensures
            r@.len() == self.entries().len(),
            forall|i: int| 0 <= i < r@.len() ==> #[trigger] r@[i]@ == self.entries()[i].0,
    {
        proof { use_type_invariant(self); }
        let mut r: Vec<String> = Vec::new();
        let mut i: usize = 0;
        while i < self.keys.len()
            invariant
                i <= self.keys@.len(),
                self.keys@.len() == self.values@.len(),
                r@.len() == i,
                forall|j: int| 0 <= j < i ==> #[trigger] r@[j]@ == self.entries()[j].0,
            decreases self.keys.len() - i,
        {
            r.push(self.keys[i].clone());
            i = i + 1;
        }
        r
    }
}

impl StringMap<String> {
    /// A copy with the same entries.
    pub fn copy(&self) -> (r: Self)
        ensures
            r.entries() == self.entries(),
    {
        proof { use_type_invariant(self); }
        let keys = self.keys.clone();
        let values = self.values.clone();
        assert(keys@ =~= self.keys@);
        assert(values@ =~= self.values@);
        StringMap { keys, values }
    }
}

} // verus!
