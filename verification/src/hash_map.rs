//! Access to an RCU hash map through an accessor handle.
//!
//! An accessor gives the read and write operations of a map for as long as it lives.
use vstd::laws_eq::obeys_concrete_eq;
use vstd::prelude::*;

use crate::hashmap::container::RcuHashMap;
use crate::hashmap::iterator::Iter;
use crate::hashmap::raw::{
    enumerates, equal_key, has_equal_key, lawful_eq, map_after_insert, map_after_remove, RawIter,
};
use crate::hashmap::reference::{Ref, RefOwned};

verus! {

/// The operations of an [`RcuHashMap`] for the lifetime of one access.
#[verifier::reject_recursive_types(K)]
pub struct RcuHashMapAccessor<'a, K: PartialEq, V> {
    pub map: &'a mut RcuHashMap<K, V>,
}

impl<K: PartialEq, V> RcuHashMap<K, V> {
    /// Opens an accessor on the map.
    pub fn access(&mut self) -> (r: RcuHashMapAccessor<'_, K, V>)
        ensures
            r.map@ == old(self)@,
            final(r.map)@ == final(self)@,
    {
        RcuHashMapAccessor { map: self }
    }
}

impl<'a, K: PartialEq, V> RcuHashMapAccessor<'a, K, V> {
    /// Maps `key` to `value`, replacing the entry of an equal key if there is one.
    ///
    /// Returns the replaced entry.
    pub fn insert(&mut self, key: K, value: V) -> (r: Option<RcuHashMapRef<K, V>>)
        ensures
            !final(self).map.holds_nothing(),
            lawful_eq::<K>() ==> final(self).map@ == map_after_insert(old(self).map@, key, value),
            lawful_eq::<K>() ==> (r is None <==> !has_equal_key(old(self).map@, key)),
            lawful_eq::<K>() ==> (r is Some ==> r->0@ == (
                equal_key(old(self).map@, key),
                old(self).map@[equal_key(old(self).map@, key)],
            )),
            obeys_concrete_eq::<K>() ==> final(self).map@ == old(self).map@.insert(key, value),
            obeys_concrete_eq::<K>() ==> (r is None <==> !old(self).map@.contains_key(key)),
            obeys_concrete_eq::<K>() ==> (r is Some ==> r->0@ == (key, old(self).map@[key])),
            final(final(self).map)@ == final(old(self).map)@,
    {
        self.map.insert(key, value)
    }

    /// Borrows the value mapped to `key`, if any.
    pub fn get(&self, key: &K) -> (r: Option<&V>)
        ensures
            old(self.map).holds_nothing() ==> r is None,
            lawful_eq::<K>() ==> r == (if has_equal_key(old(self.map)@, *key) {
                Some(&old(self.map)@[equal_key(old(self.map)@, *key)])
            } else {
                None::<&V>
            }),
            obeys_concrete_eq::<K>() ==> r == (if old(self.map)@.contains_key(*key) {
                Some(&old(self.map)@[*key])
            } else {
                None::<&V>
            }),
    {
        self.map.get(key)
    }

    /// Removes the entry for `key`, if any, and returns it.
    pub fn remove(&mut self, key: &K) -> (r: Option<RcuHashMapRef<K, V>>)
        ensures
            old(self).map.holds_nothing() ==> r is None && final(self).map.holds_nothing(),
            lawful_eq::<K>() ==> final(self).map@ == map_after_remove(old(self).map@, *key),
            lawful_eq::<K>() ==> (r is None <==> !has_equal_key(old(self).map@, *key)),
            lawful_eq::<K>() ==> (r is Some ==> r->0@ == (
                equal_key(old(self).map@, *key),
                old(self).map@[equal_key(old(self).map@, *key)],
            )),
            obeys_concrete_eq::<K>() ==> final(self).map@ == old(self).map@.remove(*key),
            obeys_concrete_eq::<K>() ==> (r is None <==> !old(self).map@.contains_key(*key)),
            obeys_concrete_eq::<K>() ==> (r is Some ==> r->0@ == (*key, old(
                self,
            ).map@[*key])),
            final(final(self).map)@ == final(old(self).map)@,
    {
        self.map.remove(key)
    }

    /// Returns an iterator over the entries of the map, in no particular order.
    pub fn iter(&self) -> (r: RcuHashMapIterator<'_, K, V>)
        ensures
            old(self.map).holds_nothing() ==> r.remaining().len() == 0,
            lawful_eq::<K>() ==> enumerates(r.remaining(), old(self.map)@),
            obeys_concrete_eq::<K>() ==> enumerates(r.remaining(), old(self.map)@),
    {
        self.map.iter()
    }
}

/// An iterator over the entries of an [`RcuHashMap`], under its longer name.
pub type RcuHashMapIterator<'a, K, V> = Iter<'a, K, V>;

/// An entry given up by an [`RcuHashMap`], under its longer name.
pub type RcuHashMapRef<K, V> = Ref<K, V>;

/// An entry given up by an [`RcuHashMap`] and owned by the caller, under its longer
/// name.
pub type RcuHashMapRefOwned<K, V> = RefOwned<K, V>;

/// A cursor over the entries of the table of an [`RcuHashMap`], under its longer name.
pub type RawIterator<'a, K, V> = RawIter<'a, K, V>;

} // verus!
