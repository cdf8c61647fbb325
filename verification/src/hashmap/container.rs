//! The RCU hash map.
//!
//! The map is viewed as a `Map` from keys to values. Keys are compared with their
//! `PartialEq`. For any key type whose `==` is an equivalence relation (`lawful_eq`, the
//! contract of `Eq`), a key reaches the stored entry whose key is equal to it. For key
//! types whose `==` is plain equality (`obeys_concrete_eq`), such as the integer types,
//! this is the plain `Map` behaviour. A map that holds nothing finds nothing, whatever
//! the key type.
use vstd::laws_eq::obeys_concrete_eq;
use vstd::prelude::*;
use vstd::std_specs::cmp::PartialEqSpec;

use crate::hashmap::iterator::Iter;
use crate::hashmap::raw::{
    enumerates, equal_key, has_equal_key, lemma_concrete_equal_key, map_after_insert,
    map_after_remove, map_keys_inequivalent, RawMap, lawful_eq,
};
use crate::hashmap::reference::Ref;

verus! {

/// A hash map whose removed entries are handed back as references.
#[verifier::reject_recursive_types(K)]
pub struct RcuHashMap<K: PartialEq, V> {
    raw: RawMap<K, V>,
}

impl<K: PartialEq, V> View for RcuHashMap<K, V> {
    type V = Map<K, V>;

    closed spec fn view(&self) -> Map<K, V> {
        self.raw@
    }
}

impl<K: PartialEq, V> RcuHashMap<K, V> {
    #[verifier::type_invariant]
    spec fn well_formed(self) -> bool {
        self.raw.wf()
    }

    /// Whether the map stores no entry at all.
    pub closed spec fn holds_nothing(&self) -> bool {
        self.raw.holds_nothing()
    }

    /// Creates an empty map.
    pub fn new() -> (r: Self)
        ensures
            r.holds_nothing(),
            r@ == Map::<K, V>::empty(),
            map_keys_inequivalent(r@),
    {
        RcuHashMap { raw: RawMap::new() }
    }

    /// Maps `key` to `value`, replacing the entry of an equal key if there is one.
    ///
    /// Returns the replaced entry.
    pub fn insert(&mut self, key: K, value: V) -> (r: Option<Ref<K, V>>)
        ensures
            !final(self).holds_nothing(),
            lawful_eq::<K>() ==> map_keys_inequivalent(final(self)@),
            lawful_eq::<K>() ==> final(self)@ == map_after_insert(old(self)@, key, value),
            lawful_eq::<K>() ==> (r is None <==> !has_equal_key(old(self)@, key)),
            lawful_eq::<K>() ==> (r is Some ==> r->0@ == (
                equal_key(old(self)@, key),
                old(self)@[equal_key(old(self)@, key)],
            )),
            obeys_concrete_eq::<K>() ==> final(self)@ == old(self)@.insert(key, value),
            obeys_concrete_eq::<K>() ==> (r is None <==> !old(self)@.contains_key(key)),
            obeys_concrete_eq::<K>() ==> (r is Some ==> r->0@ == (key, old(self)@[key])),
    {
        proof {
            use_type_invariant(&*self);
            if obeys_concrete_eq::<K>() {
                lemma_concrete_equal_key(self@, key, value);
            }
        }
        let mut raw = RawMap::new();
        std::mem::swap(&mut raw, &mut self.raw);
        let replaced = raw.add_replace(key, value);
        proof {
            if lawful_eq::<K>() {
                raw.lemma_view_keys_inequivalent();
            }
        }
        std::mem::swap(&mut raw, &mut self.raw);
        match replaced {
            Some(node) => Some(Ref::new(node)),
            None => None,
        }
    }

    /// Borrows the value mapped to `key`, if any.
    pub fn get(&self, key: &K) -> (r: Option<&V>)
        ensures
            self.holds_nothing() ==> r is None,
            lawful_eq::<K>() ==> r == (if has_equal_key(self@, *key) {
                Some(&self@[equal_key(self@, *key)])
            } else {
                None::<&V>
            }),
            obeys_concrete_eq::<K>() ==> r == (if self@.contains_key(*key) {
                Some(&self@[*key])
            } else {
                None::<&V>
            }),
    {
        proof {
            use_type_invariant(self);
            if obeys_concrete_eq::<K>() {
                lemma_concrete_equal_key(self@, *key, arbitrary());
            }
        }
        match self.raw.lookup(key) {
            Some(node) => Some(node.value()),
            None => None,
        }
    }

    /// Returns `true` if the map holds an entry for `key`.
    pub fn contains(&self, key: &K) -> (r: bool)
        ensures
            self.holds_nothing() ==> !r,
            lawful_eq::<K>() ==> r == has_equal_key(self@, *key),
            obeys_concrete_eq::<K>() ==> r == self@.contains_key(*key),
    {
        proof {
            use_type_invariant(self);
            if obeys_concrete_eq::<K>() {
                lemma_concrete_equal_key(self@, *key, arbitrary());
            }
        }
        self.raw.lookup(key).is_some()
    }

    /// Removes the entry for `key`, if any, and returns it.
    pub fn remove(&mut self, key: &K) -> (r: Option<Ref<K, V>>)
        ensures
            old(self).holds_nothing() ==> r is None && final(self).holds_nothing(),
            lawful_eq::<K>() ==> map_keys_inequivalent(final(self)@),
            lawful_eq::<K>() ==> final(self)@ == map_after_remove(old(self)@, *key),
            lawful_eq::<K>() ==> (r is None <==> !has_equal_key(old(self)@, *key)),
            lawful_eq::<K>() ==> (r is Some ==> r->0@ == (
                equal_key(old(self)@, *key),
                old(self)@[equal_key(old(self)@, *key)],
            )),
            obeys_concrete_eq::<K>() ==> final(self)@ == old(self)@.remove(*key),
            obeys_concrete_eq::<K>() ==> (r is None <==> !old(self)@.contains_key(*key)),
            obeys_concrete_eq::<K>() ==> (r is Some ==> r->0@ == (*key, old(self)@[*key])),
    {
        proof {
            use_type_invariant(&*self);
            if obeys_concrete_eq::<K>() {
                lemma_concrete_equal_key(self@, *key, arbitrary());
            }
        }
        let mut raw = RawMap::new();
        std::mem::swap(&mut raw, &mut self.raw);
        let removed = raw.del(key);
        proof {
            if lawful_eq::<K>() {
                raw.lemma_view_keys_inequivalent();
            }
        }
        std::mem::swap(&mut raw, &mut self.raw);
        match removed {
            Some(node) => Some(Ref::new(node)),
            None => None,
        }
    }

    /// Returns an iterator over the entries of the map, in no particular order.
    pub fn iter(&self) -> (r: Iter<'_, K, V>)
        ensures
            self.holds_nothing() ==> r.remaining().len() == 0,
            lawful_eq::<K>() ==> enumerates(r.remaining(), self@),
            obeys_concrete_eq::<K>() ==> enumerates(r.remaining(), self@),
    {
        proof {
            use_type_invariant(self);
            if obeys_concrete_eq::<K>() {
                lemma_concrete_equal_key(self@, arbitrary(), arbitrary());
            }
        }
        Iter::new(self.raw.iter())
    }
}

/// A value read right after it was stored under a key is that value, and the entries of
/// the other keys are untouched.
pub proof fn law_get_after_insert<K, V>(m: Map<K, V>, k: K, v: V, other: K)
    requires
        other != k,
    ensures
        m.insert(k, v).contains_key(k),
        m.insert(k, v)[k] == v,
        m.insert(k, v).contains_key(other) == m.contains_key(other),
        m.contains_key(other) ==> m.insert(k, v)[other] == m[other],
{
}

/// After a key is removed, nothing is found under it, and the entries of the other keys
/// are untouched.
pub proof fn law_get_after_remove<K, V>(m: Map<K, V>, k: K, other: K)
    requires
        other != k,
    ensures
        !m.remove(k).contains_key(k),
        m.remove(k).contains_key(other) == m.contains_key(other),
        m.contains_key(other) ==> m.remove(k)[other] == m[other],
{
}

/// Removing a key that is absent leaves the map as it was.
pub proof fn law_remove_absent<K, V>(m: Map<K, V>, k: K)
    requires
        !m.contains_key(k),
    ensures
        m.remove(k) == m,
{
    assert(m.remove(k) =~= m);
}

/// Storing the same entry twice has the effect of storing it once.
pub proof fn law_insert_idempotent<K, V>(m: Map<K, V>, k: K, v: V)
    ensures
        m.insert(k, v).insert(k, v) == m.insert(k, v),
{
    assert(m.insert(k, v).insert(k, v) =~= m.insert(k, v));
}

/// Storing an entry under a fresh key and removing that key restores the map.
pub proof fn law_insert_then_remove<K, V>(m: Map<K, V>, k: K, v: V)
    requires
        !m.contains_key(k),
    ensures
        m.insert(k, v).remove(k) == m,
{
    assert(m.insert(k, v).remove(k) =~= m);
}

/// Iterating over a map yields exactly as many entries as the map holds.
pub proof fn law_iter_yields_len<K, V>(pairs: Seq<(K, V)>, m: Map<K, V>)
    requires
        enumerates(pairs, m),
    ensures
        m.dom().finite(),
        pairs.len() == m.len(),
{
    let keys = pairs.map_values(|p: (K, V)| p.0);
    assert(keys.no_duplicates()) by {
        assert forall|i: int, j: int|
            0 <= i < keys.len() && 0 <= j < keys.len() && i != j implies keys[i] != keys[j] by {
            if i < j {
                assert(pairs[i].0 != pairs[j].0);
            } else {
                assert(pairs[j].0 != pairs[i].0);
            }
        }
    }
    assert(keys.to_set() =~= m.dom()) by {
        assert forall|k: K| keys.to_set().contains(k) implies m.dom().contains(k) by {
            let i = choose|i: int| 0 <= i < keys.len() && keys[i] == k;
            assert(m.contains_key(pairs[i].0));
        }
        assert forall|k: K| m.dom().contains(k) implies keys.to_set().contains(k) by {
            assert(m.contains_key(k));
            let i = choose|i: int| 0 <= i < pairs.len() && (#[trigger] pairs[i]).0 == k;
            assert(keys[i] == k);
        }
    }
    keys.unique_seq_to_set();
    vstd::seq_lib::seq_to_set_is_finite(keys);
}

/// Under any lawful key equality: right after `k` is stored with `v`, looking up `k`
/// reaches the entry stored under `k` itself, which holds `v`; every entry whose key is
/// not equal to `k` is untouched; and no two stored keys are equal.
pub proof fn law_equal_get_after_insert<K: PartialEq, V>(m: Map<K, V>, k: K, v: V, other: K)
    requires
        lawful_eq::<K>(),
        map_keys_inequivalent(m),
        m.contains_key(other),
        !other.eq_spec(&k),
    ensures
        has_equal_key(map_after_insert(m, k, v), k),
        equal_key(map_after_insert(m, k, v), k) == k,
        map_after_insert(m, k, v)[k] == v,
        map_after_insert(m, k, v).contains_key(other),
        map_after_insert(m, k, v)[other] == m[other],
        map_keys_inequivalent(map_after_insert(m, k, v)),
{
    let m2 = map_after_insert(m, k, v);
    assert(k.eq_spec(&k));
    assert(m2.contains_key(k) && k.eq_spec(&k));
    let j2 = equal_key(m2, k);
    if j2 != k {
        assert(m.contains_key(j2));
        if has_equal_key(m, k) {
            let j = equal_key(m, k);
            assert(k.eq_spec(&j));
            assert(j2.eq_spec(&j));
        }
    }
    if has_equal_key(m, k) {
        let j = equal_key(m, k);
        if other == j {
            assert(false);
        }
    }
    assert forall|a: K, b: K|
        #[trigger] m2.contains_key(a) && #[trigger] m2.contains_key(b) && a != b implies !a.eq_spec(
        &b,
    ) by {
        if a != k && b != k {
            assert(m.contains_key(a) && m.contains_key(b));
        } else if a == k {
            assert(m.contains_key(b));
            if k.eq_spec(&b) {
                assert(b.eq_spec(&k));
                if has_equal_key(m, k) {
                    let j = equal_key(m, k);
                    assert(k.eq_spec(&j));
                    assert(b.eq_spec(&j));
                }
            }
        } else {
            assert(m.contains_key(a));
            if a.eq_spec(&k) {
                if has_equal_key(m, k) {
                    let j = equal_key(m, k);
                    assert(k.eq_spec(&j));
                    assert(a.eq_spec(&j));
                }
            }
        }
    }
}

/// Under any lawful key equality: after the entry of a key equal to `k` is removed,
/// nothing equal to `k` is found, every other entry is untouched, and removing a key that
/// has no equal entry leaves the map as it was.
pub proof fn law_equal_get_after_remove<K: PartialEq, V>(m: Map<K, V>, k: K, other: K)
    requires
        lawful_eq::<K>(),
        map_keys_inequivalent(m),
        m.contains_key(other),
        !other.eq_spec(&k),
    ensures
        !has_equal_key(map_after_remove(m, k), k),
        map_after_remove(m, k).contains_key(other),
        map_after_remove(m, k)[other] == m[other],
        !has_equal_key(m, k) ==> map_after_remove(m, k) == m,
        map_keys_inequivalent(map_after_remove(m, k)),
{
    let m2 = map_after_remove(m, k);
    if has_equal_key(m2, k) {
        let j2 = equal_key(m2, k);
        assert(m.contains_key(j2));
        let j = equal_key(m, k);
        assert(j2 != j);
        assert(k.eq_spec(&j));
        assert(j2.eq_spec(&j));
    }
    if has_equal_key(m, k) {
        assert(other != equal_key(m, k));
    }
}

} // verus!
