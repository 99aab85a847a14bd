//! A map that files each value under the key that the value itself names.
use vstd::prelude::*;
use std::collections::HashMap;
use std::collections::hash_map::Entry;
use vstd::std_specs::iter::IteratorSpec;

verus! {

broadcast use vstd::std_specs::hash::group_hash_axioms;

/// A value that names the key under which it is filed.
pub trait Unique {
    /// The key the value names.
    spec fn unique_key(&self) -> u64;

    /// The key the value names.
    fn get_unique_key(&self) -> (k: u64)
        ensures
            k == self.unique_key(),
    ;
}

/// Values filed by the key each of them names.
pub struct IndexedMap<T: Unique> {
    inner: HashMap<u64, T>,
}

impl<T: Unique> View for IndexedMap<T> {
    type V = Map<u64, T>;

    closed spec fn view(&self) -> Map<u64, T> {
        self.inner@
    }
}

/// Every value of `m` is filed under the key it names.
pub open spec fn keys_match<T: Unique>(m: Map<u64, T>) -> bool {
    forall|k: u64| #[trigger] m.contains_key(k) ==> m[k].unique_key() == k
}

impl<T: Unique> IndexedMap<T> {
    /// An empty map.
    pub fn new() -> (r: Self)
        ensures
            r@ == Map::<u64, T>::empty(),
    {
        IndexedMap { inner: HashMap::new() }
    }

    /// The value under `key`, if any.
    pub fn get(&self, key: &u64) -> (r: Option<&T>)
        ensures
            match r {
                Some(v) => self@.contains_key(*key) && *v == self@[*key],
                None => !self@.contains_key(*key),
            },
    {
        self.inner.get(key)
    }

    /// A mutable reference to the value under `key`, if any.
    pub fn get_mut(&mut self, key: &u64) -> (r: Option<&mut T>)
        ensures
            match r {
                Some(v) => old(self)@.contains_key(*key) && *v == old(self)@[*key]
                    && final(self)@ == old(self)@.insert(*key, *final(v)),
                None => !old(self)@.contains_key(*key) && final(self)@ == old(self)@,
            },
    {
        match self.inner.entry(*key) {
            Entry::Occupied(entry) => Some(entry.into_mut()),
            Entry::Vacant(_) => None,
        }
    }

    /// Files `value` under the key it names, replacing what was there.
    pub fn insert(&mut self, value: T)
        ensures
            final(self)@ == old(self)@.insert(value.unique_key(), value),
    {
        let key = value.get_unique_key();
        self.inner.insert(key, value);
    }

    /// Drops the value under `key`, if any.
    pub fn remove(&mut self, key: &u64)
        ensures
            final(self)@ == old(self)@.remove(*key),
    {
        self.inner.remove(key);
    }

    /// The keys, in no particular order, each once.
    pub fn keys(&self) -> (r: Vec<u64>)
        ensures
            r@.to_set() == self@.dom(),
            r@.no_duplicates(),
            r@.len() == self@.dom().len(),
    {
        let mut r: Vec<u64> = Vec::new();
        let keys = self.inner.keys();
        let ghost all = keys.remaining();
        proof {
            vstd::std_specs::hash::axiom_spec_keys_iter(&self.inner);
        }
        for k in it: keys
            invariant
                it.seq() == all,
                r@ == all.take(it.index() as int).unref(),
        {
            r.push(*k);
            assert(all.take(it.index() + 1).unref() == all.take(it.index() as int).unref().push(*all[it.index() as int]));
        }
        assert(all.take(all.len() as int) == all);
        assert(r@ == all.unref());
        r
    }

    /// The values, in no particular order, one for each key.
    pub fn values(&self) -> (r: Vec<&T>)
        ensures
            r@.unref().to_set() == self@.values(),
            r@.len() == self@.dom().len(),
            self@.dom().finite(),
    {
        let mut r: Vec<&T> = Vec::new();
        let values = self.inner.values();
        let ghost all = values.remaining();
        proof {
            vstd::std_specs::hash::axiom_spec_values_iter(&self.inner);
        }
        for v in it: values
            invariant
                it.seq() == all,
                r@ == all.take(it.index() as int),
        {
            r.push(v);
            assert(all.take(it.index() + 1) == all.take(it.index() as int).push(all[it.index() as int]));
        }
        assert(all.take(all.len() as int) == all);
        r
    }

    /// Removes the value under `key` and hands it back, if there was one.
    pub fn take(&mut self, key: &u64) -> (r: Option<T>)
        ensures
            r == old(self)@.get(*key),
            final(self)@ == old(self)@.remove(*key),
    {
        self.inner.remove(key)
    }
}

impl<T: Unique> Default for IndexedMap<T> {
    /// An empty map.
    fn default() -> (r: Self)
        ensures
            r@ == Map::<u64, T>::empty(),
    {
        IndexedMap { inner: HashMap::new() }
    }
}

/// Filing a value keeps every value under the key it names.
pub proof fn lemma_insert_keeps_keys_matched<T: Unique>(m: Map<u64, T>, value: T)
    requires
        keys_match(m),
    ensures
        keys_match(m.insert(value.unique_key(), value)),
{
}

/// Where every value is filed under the key it names, a list that holds the values of the map,
/// one entry per key (as `values` hands them out), holds each value once; their keys are
/// pairwise distinct and are the keys of the map.
pub proof fn lemma_values_have_distinct_keys<T: Unique>(m: Map<u64, T>, vs: Seq<T>)
    requires
        m.dom().finite(),
        keys_match(m),
        vs.to_set() == m.values(),
        vs.len() == m.dom().len(),
    ensures
        vs.no_duplicates(),
        forall|i: int, j: int|
            0 <= i < vs.len() && 0 <= j < vs.len() && i != j ==> #[trigger] vs[i].unique_key() != #[trigger] vs[j].unique_key(),
        vs.map_values(|v: T| v.unique_key()).to_set() == m.dom(),
{
    let f = |k: u64| m[k];
    assert(m.dom().map(f) =~= m.values()) by {
        assert forall|v: T| #[trigger] m.values().contains(v) implies m.dom().map(f).contains(v) by {
            let k = choose|k: u64| #[trigger] m.contains_key(k) && m[k] == v;
            assert(f(k) == v);
        }
    }
    assert(vstd::relations::injective_on(f, m.dom())) by {
        assert forall|a: u64, b: u64| m.dom().contains(a) && m.dom().contains(b) && #[trigger] f(a) == #[trigger] f(b) implies a == b by {
            assert(m[a].unique_key() == a);
            assert(m[b].unique_key() == b);
        }
    }
    vstd::set_lib::lemma_map_size(m.dom(), m.values(), f);
    vs.lemma_no_dup_set_cardinality();
    assert forall|i: int, j: int|
        0 <= i < vs.len() && 0 <= j < vs.len() && i != j implies #[trigger] vs[i].unique_key() != #[trigger] vs[j].unique_key() by {
        assert(vs.to_set().contains(vs[i]));
        assert(vs.to_set().contains(vs[j]));
        let ki = choose|k: u64| #[trigger] m.contains_key(k) && m[k] == vs[i];
        let kj = choose|k: u64| #[trigger] m.contains_key(k) && m[k] == vs[j];
        if vs[i].unique_key() == vs[j].unique_key() {
            assert(ki == kj);
            assert(vs[i] == vs[j]);
        }
    }
    let keys = vs.map_values(|v: T| v.unique_key());
    assert(keys.to_set() =~= m.dom()) by {
        assert forall|k: u64| #[trigger] keys.to_set().contains(k) implies m.dom().contains(k) by {
            let i = choose|i: int| 0 <= i < keys.len() && keys[i] == k;
            assert(vs.to_set().contains(vs[i]));
            let kk = choose|kk: u64| #[trigger] m.contains_key(kk) && m[kk] == vs[i];
        }
        assert forall|k: u64| #[trigger] m.dom().contains(k) implies keys.to_set().contains(k) by {
            assert(m.values().contains(m[k]));
            let i = choose|i: int| 0 <= i < vs.len() && vs[i] == m[k];
            assert(keys[i] == k);
        }
    }
}

/// Dropping a key keeps every remaining value under the key it names.
pub proof fn lemma_remove_keeps_keys_matched<T: Unique>(m: Map<u64, T>, key: u64)
    requires
        keys_match(m),
    ensures
        keys_match(m.remove(key)),
{
}

/// After a value is filed, looking up the key it names finds that value, and every other key
/// finds what it found before.
pub proof fn lemma_get_after_insert<T: Unique>(m: Map<u64, T>, value: T, other: u64)
    ensures
        m.insert(value.unique_key(), value).get(value.unique_key()) == Some(value),
        other != value.unique_key() ==> m.insert(value.unique_key(), value).get(other) == m.get(other),
{
}

/// Taking a key hands back what looking it up finds, and leaves nothing under it.
pub proof fn lemma_take_is_get_then_remove<T: Unique>(m: Map<u64, T>, key: u64)
    ensures
        m.remove(key).get(key) is None,
        m.get(key) is Some ==> m.remove(key).insert(key, m.get(key).unwrap()) == m,
{
    if m.get(key) is Some {
        assert(m.remove(key).insert(key, m.get(key).unwrap()) =~= m);
    }
}

/// One change made to an `IndexedMap`, by the method of the same name: `Edit(k, v)` is the
/// write of `v` through the reference that `get_mut(&k)` hands out.
pub enum MapChange<T> {
    Insert(T),
    Remove(u64),
    Take(u64),
    Edit(u64, T),
}

/// The view of a map made by `new` and then changed by `changes`, in turn, each as its method
/// states (an `Edit` of a key not filed changes nothing, as `get_mut` then hands out nothing).
pub open spec fn replay<T: Unique>(changes: Seq<MapChange<T>>) -> Map<u64, T>
    decreases changes.len(),
{
    if changes.len() == 0 {
        Map::empty()
    } else {
        let m = replay(changes.drop_last());
        match changes.last() {
            MapChange::Insert(v) => m.insert(v.unique_key(), v),
            MapChange::Remove(k) => m.remove(k),
            MapChange::Take(k) => m.remove(k),
            MapChange::Edit(k, v) => if m.contains_key(k) { m.insert(k, v) } else { m },
        }
    }
}

/// The value last filed under `key` by `changes` and not removed or taken since, with the
/// edits made to it since it was filed.
pub open spec fn last_filed<T: Unique>(changes: Seq<MapChange<T>>, key: u64) -> Option<T>
    decreases changes.len(),
{
    if changes.len() == 0 {
        None
    } else {
        let before = last_filed(changes.drop_last(), key);
        match changes.last() {
            MapChange::Insert(v) => if v.unique_key() == key { Some(v) } else { before },
            MapChange::Remove(k) => if k == key { None } else { before },
            MapChange::Take(k) => if k == key { None } else { before },
            MapChange::Edit(k, v) => if k == key && before is Some { Some(v) } else { before },
        }
    }
}

/// No edit gives a value another key than the one it is filed under.
pub open spec fn edits_keep_keys<T: Unique>(changes: Seq<MapChange<T>>) -> bool {
    forall|i: int| 0 <= i < changes.len() ==> (#[trigger] changes[i] matches MapChange::Edit(k, v) ==> v.unique_key() == k)
}

/// Whatever changes a map goes through, looking a key up finds the value last filed under it
/// and not removed or taken since (with the edits made to it since), and nothing where there
/// is no such value; where no edit changes a value's key, every value stays filed under the
/// key it names.
pub proof fn lemma_lookup_after_changes<T: Unique>(changes: Seq<MapChange<T>>, key: u64)
    ensures
        replay(changes).get(key) == last_filed(changes, key),
        edits_keep_keys(changes) ==> keys_match(replay(changes)),
    decreases changes.len(),
{
    if changes.len() > 0 {
        let rest = changes.drop_last();
        lemma_lookup_after_changes(rest, key);
        if edits_keep_keys(changes) {
            assert forall|i: int| 0 <= i < rest.len() implies (#[trigger] rest[i] matches MapChange::Edit(k, v) ==> v.unique_key() == k) by {
                assert(rest[i] == changes[i]);
            }
            assert(edits_keep_keys(rest));
            assert(changes[changes.len() - 1] == changes.last());
        }
    }
}

} // verus!
