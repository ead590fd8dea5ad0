//! A multi-valued header map whose keys are compared without regard to case.

use vstd::prelude::*;
use crate::string_map::{
    entries_get, entries_insert, entries_map, entries_remove, entry_keys, has_key, key_index,
    lemma_entries_insert, lemma_entries_remove, lemma_key_index, StringMap,
};
use crate::text::{is_ascii_text, lemma_ascii_lowercase_idempotent, lowercase, to_lowercase};

verus! {

/// A map from lower-cased keys to lists of values, for HTTP headers: a key
/// is stored as `str::to_lowercase` gives it and looked up the same way, and
/// each insertion appends to the key's list.
pub struct CaseInsensitiveMap {
    inner: StringMap<Vec<String>>,
}

/// The entries after appending `v` to the list of key `k`.
pub open spec fn entries_append(es: Seq<(Seq<char>, Seq<Seq<char>>)>, k: Seq<char>, v: Seq<char>) -> Seq<(Seq<char>, Seq<Seq<char>>)> {
    entries_insert(es, k, match entries_get(es, k) {
        Some(vs) => vs.push(v),
        None => seq![v],
    })
}

/// Whether every key's list holds a value at least.
pub open spec fn lists_nonempty(es: Seq<(Seq<char>, Seq<Seq<char>>)>) -> bool {
    forall|i: int| 0 <= i < es.len() ==> (#[trigger] es[i]).1.len() > 0
}

/// Setting a key to a non-empty list keeps every list non-empty.
proof fn lemma_insert_keeps_lists(es: Seq<(Seq<char>, Seq<Seq<char>>)>, k: Seq<char>, v: Seq<Seq<char>>)
    requires
        lists_nonempty(es),
        v.len() > 0,
    ensures
        lists_nonempty(entries_insert(es, k, v)),
{
    let es2 = entries_insert(es, k, v);
    assert forall|i: int| 0 <= i < es2.len() implies (#[trigger] es2[i]).1.len() > 0 by {
        if has_key(es, k) {
            if i != key_index(es, k) {
                assert(es2[i] == es[i]);
            }
        } else if i < es.len() {
            assert(es2[i] == es[i]);
        }
    }
}

/// Removing a key keeps every list non-empty.
proof fn lemma_remove_keeps_lists(es: Seq<(Seq<char>, Seq<Seq<char>>)>, k: Seq<char>)
    requires
        lists_nonempty(es),
    ensures
        lists_nonempty(entries_remove(es, k)),
{
    let es2 = entries_remove(es, k);
    if has_key(es, k) {
        let j = key_index(es, k);
        assert forall|i: int| 0 <= i < es2.len() implies (#[trigger] es2[i]).1.len() > 0 by {
            if i < j {
                assert(es2[i] == es[i]);
            } else {
                assert(es2[i] == es[i + 1]);
            }
        }
    }
}

impl CaseInsensitiveMap {
    /// The stored keys with their lists of values, in the order the keys came.
    pub closed spec fn entries(&self) -> Seq<(Seq<char>, Seq<Seq<char>>)> {
        self.inner.entries()
    }

    /// No key is stored with an empty list: insertion appends a value, and
    /// removal takes the key away.
    #[verifier::type_invariant]
    closed spec fn inv(self) -> bool {
        lists_nonempty(self.inner.entries())
    }

    /// Every stored key has a value at least.
    pub fn lists_are_nonempty(&self)
        ensures
            lists_nonempty(self.entries()),
    {
        proof { use_type_invariant(self); }
    }

    /// The map from stored key to list of values.
    pub open spec fn spec_map(&self) -> Map<Seq<char>, Seq<Seq<char>>> {
        entries_map(self.entries())
    }

    pub fn new() -> (r: Self)
        ensures
            r.entries() == Seq::<(Seq<char>, Seq<Seq<char>>)>::empty(),
    {
        CaseInsensitiveMap { inner: StringMap::new() }
    }

    /// The stored keys are distinct.
    pub fn keys_are_distinct(&self)
        ensures
            entry_keys(self.entries()).no_duplicates(),
    {
        self.inner.keys_are_distinct();
    }

    /// Appends `value` to the list of the lower-cased `key`.
    pub fn insert(&mut self, key: &str, value: &str)
        ensures
            final(self).entries() == entries_append(old(self).entries(), lowercase(key@), value@),
            entry_keys(final(self).entries()).no_duplicates(),
    {
        proof { use_type_invariant(&*self); }
        let k = to_lowercase(key);
        let ghost es = self.entries();
        let mut vals: Vec<String> = match self.inner.get(k.as_str()) {
            Some(existing) => {
                let c = existing.clone();
                assert(c.deep_view() =~= existing.deep_view());
                c
            },
            None => Vec::new(),
        };
        let ghost before = vals.deep_view();
        vals.push(String::from_str(value));
        assert(vals.deep_view() =~= before.push(value@));
        proof {
            if has_key(es, k@) {
                assert(before == entries_get(es, k@)->0);
            } else {
                assert(before =~= Seq::<Seq<char>>::empty());
                assert(vals.deep_view() =~= seq![value@]);
            }
            lemma_insert_keeps_lists(es, k@, vals.deep_view());
        }
        let mut whole = CaseInsensitiveMap::new();
        std::mem::swap(&mut whole, self);
        let CaseInsensitiveMap { mut inner } = whole;
        assert(inner.entries() == es);
        inner.insert(k, vals);
        *self = CaseInsensitiveMap { inner };
    }

    /// The values of the lower-cased `key`, if it has any.
    pub fn get(&self, key: &str) -> (r: Option<&Vec<String>>)
        ensures
            r is Some == has_key(self.entries(), lowercase(key@)),
            r matches Some(vs) ==> Some(vs.deep_view()) == entries_get(self.entries(), lowercase(key@)),
    {
        let k = to_lowercase(key);
        self.inner.get(k.as_str())
    }

    /// The first value of the lower-cased `key`, if it has any.
    pub fn get_first(&self, key: &str) -> (r: Option<&String>)
        ensures
            r is Some == has_key(self.entries(), lowercase(key@)),
            r matches Some(v) ==> v@ == entries_get(self.entries(), lowercase(key@))->0[0],
    {
        proof {
            use_type_invariant(self);
            if has_key(self.entries(), lowercase(key@)) {
                let i = key_index(self.entries(), lowercase(key@));
                assert(self.entries()[i].1.len() > 0);
            }
        }
        match self.get(key) {
            Some(vs) => {
                if vs.len() > 0 {
                    Some(&vs[0])
                } else {
                    None
                }
            },
            None => None,
        }
    }

    /// Removes the lower-cased `key` and all its values.
    pub fn remove(&mut self, key: &str)
        ensures
            final(self).entries() == entries_remove(old(self).entries(), lowercase(key@)),
            entry_keys(final(self).entries()).no_duplicates(),
    {
        proof { use_type_invariant(&*self); }
        let k = to_lowercase(key);
        let ghost es = self.entries();
        proof { lemma_remove_keeps_lists(es, k@); }
        let mut whole = CaseInsensitiveMap::new();
        std::mem::swap(&mut whole, self);
        let CaseInsensitiveMap { mut inner } = whole;
        assert(inner.entries() == es);
        inner.remove(k.as_str());
        *self = CaseInsensitiveMap { inner };
    }

    /// Whether the lower-cased `key` is stored.
    pub fn contains_key(&self, key: &str) -> (r: bool)
        ensures
            r == has_key(self.entries(), lowercase(key@)),
    {
        let k = to_lowercase(key);
        self.inner.contains_key(k.as_str())
    }

    /// The values stored at position `i`.
    pub fn get_stored(&self, i: usize) -> (r: &Vec<String>)
        requires
            i < self.entries().len(),
        ensures
            r.deep_view() == self.entries()[i as int].1,
    {
        self.inner.value_at(i)
    }

    /// The stored (lower-cased) keys, in the order they came.
    pub fn keys(&self) -> (r: Vec<String>)
        ensures
            r@.len() == self.entries().len(),
            forall|i: int| 0 <= i < r@.len() ==> #[trigger] r@[i]@ == self.entries()[i].0,
    {
        self.inner.keys()
    }

    pub fn is_empty(&self) -> (r: bool)
        ensures
            r == (self.entries().len() == 0),
    {
        self.inner.is_empty()
    }

    /// The number of distinct stored keys.
    pub fn len(&self) -> (r: usize)
        ensures
            r == self.entries().len(),
    {
        self.inner.len()
    }

    /// A copy of the map with the same entries.
    pub fn copy(&self) -> (r: Self)
        ensures
            r.entries() == self.entries(),
    {
        proof { use_type_invariant(self); }
        let ks = self.inner.keys();
        let mut inner: StringMap<Vec<String>> = StringMap::new();
        let mut i: usize = 0;
        let n = self.inner.len();
        self.inner.keys_are_distinct();
        while i < n
            invariant
                i <= n,
                n == self.entries().len(),
                ks@.len() == n,
                forall|j: int| 0 <= j < ks@.len() ==> #[trigger] ks@[j]@ == self.entries()[j].0,
                entry_keys(self.entries()).no_duplicates(),
                inner.entries() == self.entries().take(i as int),
            decreases n - i,
        {
            let src = self.inner.value_at(i);
            let vs = src.clone();
            assert(vs.deep_view() =~= src.deep_view());
            let ghost before = inner.entries();
            proof {
                assert(!has_key(before, ks@[i as int]@)) by {
                    if has_key(before, ks@[i as int]@) {
                        let j = key_index(before, ks@[i as int]@);
                        assert(entry_keys(self.entries())[j] == entry_keys(self.entries())[i as int]);
                    }
                }
            }
            inner.insert(ks[i].clone(), vs);
            assert(self.entries().take(i as int + 1) =~= before.push(self.entries()[i as int]));
            i = i + 1;
        }
        assert(self.entries().take(n as int) =~= self.entries());
        CaseInsensitiveMap { inner }
    }
}

/// After `insert(k, v)`, every key that lower-cases as `k` does sees the old
/// values of that key followed by `v`, and every other key sees what it saw.
pub proof fn lemma_insert_then_get(es: Seq<(Seq<char>, Seq<Seq<char>>)>, key: Seq<char>, other: Seq<char>, v: Seq<char>)
    requires
        entry_keys(es).no_duplicates(),
    ensures
        lowercase(other) == lowercase(key) ==> entries_get(entries_append(es, lowercase(key), v), lowercase(other))
            == Some(match entries_get(es, lowercase(key)) {
                Some(vs) => vs.push(v),
                None => seq![v],
            }),
        lowercase(other) != lowercase(key) ==> entries_get(entries_append(es, lowercase(key), v), lowercase(other))
            == entries_get(es, lowercase(other)),
{
    let k = lowercase(key);
    let nv = match entries_get(es, k) { Some(vs) => vs.push(v), None => seq![v] };
    lemma_entries_insert(es, k, nv);
    lemma_get_is_map(es, lowercase(other));
    lemma_get_is_map(entries_insert(es, k, nv), lowercase(other));
}

/// After `remove(k)`, no key that lower-cases as `k` does is found.
pub proof fn lemma_remove_then_contains(es: Seq<(Seq<char>, Seq<Seq<char>>)>, key: Seq<char>, other: Seq<char>)
    requires
        entry_keys(es).no_duplicates(),
    ensures
        lowercase(other) == lowercase(key) ==> !has_key(entries_remove(es, lowercase(key)), lowercase(other)),
        lowercase(other) != lowercase(key) ==> has_key(entries_remove(es, lowercase(key)), lowercase(other))
            == has_key(es, lowercase(other)),
{
    lemma_entries_remove(es, lowercase(key));
    let es2 = entries_remove(es, lowercase(key));
    assert(entries_map(es2).contains_key(lowercase(other)) == has_key(es2, lowercase(other)));
    assert(entries_map(es).contains_key(lowercase(other)) == has_key(es, lowercase(other)));
}

/// `insert` read back by the stored key: for an ASCII `key`, after
/// `insert(key, v)` the lower-cased key (looked up again) has its old values
/// followed by `v`, every key that lower-cases otherwise is as it was, the
/// number of keys grows by one exactly when the key is new, and the stored
/// keys are the old ones and the lower-cased key.
pub proof fn lemma_insert_by_stored_key(es: Seq<(Seq<char>, Seq<Seq<char>>)>, key: Seq<char>, v: Seq<char>)
    requires
        entry_keys(es).no_duplicates(),
        is_ascii_text(key),
    ensures
        ({
            let k = lowercase(key);
            let es2 = entries_append(es, k, v);
            &&& entries_get(es2, lowercase(k)) == Some(match entries_get(es, k) {
                Some(vs) => vs.push(v),
                None => seq![v],
            })
            &&& forall|k2: Seq<char>| lowercase(k2) != k ==> #[trigger] entries_get(es2, lowercase(k2))
                == entries_get(es, lowercase(k2))
            &&& es2.len() == es.len() + (if has_key(es, k) { 0int } else { 1int })
            &&& entry_keys(es2).to_set() == entry_keys(es).to_set().insert(k)
        }),
{
    let k = lowercase(key);
    let nv = match entries_get(es, k) { Some(vs) => vs.push(v), None => seq![v] };
    let es2 = entries_append(es, k, v);
    lemma_ascii_lowercase_idempotent(key);
    lemma_insert_then_get(es, key, k, v);
    lemma_entries_insert(es, k, nv);
    assert forall|k2: Seq<char>| lowercase(k2) != k implies #[trigger] entries_get(es2, lowercase(k2))
        == entries_get(es, lowercase(k2)) by {
        lemma_insert_then_get(es, key, k2, v);
    }
    assert forall|x: Seq<char>| entry_keys(es2).to_set().contains(x) == entry_keys(es).to_set().insert(k).contains(x) by {
        if entry_keys(es2).contains(x) {
            let i = choose|i: int| 0 <= i < entry_keys(es2).len() && entry_keys(es2)[i] == x;
            assert(has_key(es2, x)) by { assert(es2[i].0 == x); }
            assert(entries_map(es2).contains_key(x));
            if x != k {
                assert(entries_map(es).contains_key(x));
                let j = key_index(es, x);
                assert(entry_keys(es)[j] == x);
            }
        }
        if entry_keys(es).contains(x) {
            let i = choose|i: int| 0 <= i < entry_keys(es).len() && entry_keys(es)[i] == x;
            assert(has_key(es, x)) by { assert(es[i].0 == x); }
            assert(entries_map(es2).contains_key(x));
            let j = key_index(es2, x);
            assert(entry_keys(es2)[j] == x);
        }
        if x == k {
            assert(entries_map(es2).contains_key(k));
            let j = key_index(es2, k);
            assert(entry_keys(es2)[j] == k);
        }
    }
    assert(entry_keys(es2).to_set() =~= entry_keys(es).to_set().insert(k));
}

/// `remove` read back by the stored key: for an ASCII `key`, after
/// `remove(key)` the lower-cased key is gone, every key that lower-cases
/// otherwise is as it was, the number of keys drops by one exactly when the
/// key was there, removing twice is removing once, and inserting a new key
/// and then removing it gives back the entries as they were.
pub proof fn lemma_remove_by_stored_key(es: Seq<(Seq<char>, Seq<Seq<char>>)>, key: Seq<char>, v: Seq<char>)
    requires
        entry_keys(es).no_duplicates(),
        is_ascii_text(key),
    ensures
        ({
            let k = lowercase(key);
            let es2 = entries_remove(es, k);
            &&& !has_key(es2, lowercase(k))
            &&& forall|k2: Seq<char>| lowercase(k2) != k ==> #[trigger] entries_get(es2, lowercase(k2))
                == entries_get(es, lowercase(k2))
            &&& es2.len() == es.len() - (if has_key(es, k) { 1int } else { 0int })
            &&& entries_remove(es2, k) == es2
            &&& !has_key(es, k) ==> entries_remove(entries_append(es, k, v), k) == es
        }),
{
    let k = lowercase(key);
    let es2 = entries_remove(es, k);
    lemma_ascii_lowercase_idempotent(key);
    lemma_remove_then_contains(es, key, k);
    lemma_entries_remove(es, k);
    assert forall|k2: Seq<char>| lowercase(k2) != k implies #[trigger] entries_get(es2, lowercase(k2))
        == entries_get(es, lowercase(k2)) by {
        let x = lowercase(k2);
        lemma_get_is_map(es, x);
        lemma_get_is_map(es2, x);
    }
    assert(!has_key(es2, k));
    if !has_key(es, k) {
        let es3 = entries_append(es, k, v);
        assert(entries_get(es, k) is None);
        assert(es3 == es.push((k, seq![v])));
        assert(es3[es.len() as int].0 == k);
        lemma_entries_insert(es, k, seq![v]);
        lemma_key_index(es3, es.len() as int);
        assert(es3.remove(es.len() as int) =~= es);
    }
}

/// `entries_get` reads the map the entries stand for.
pub proof fn lemma_get_is_map<V>(es: Seq<(Seq<char>, V)>, k: Seq<char>)
    ensures
        entries_get(es, k) == (if entries_map(es).contains_key(k) { Some(entries_map(es)[k]) } else { None::<V> }),
{
}

impl Default for CaseInsensitiveMap {
    /// An empty map.
    fn default() -> (r: Self)
        ensures
            r.entries() == Seq::<(Seq<char>, Seq<Seq<char>>)>::empty(),
    {
        CaseInsensitiveMap::new()
    }
}

} // verus!
