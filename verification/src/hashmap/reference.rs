//! References to the entries that an RCU hash map gives up.
use vstd::prelude::*;

use crate::hashmap::raw::RawNode;

verus! {

/// An entry removed or replaced in an RCU hash map; the caller reads it or takes
/// ownership of it.
pub struct Ref<K, V> {
    node: RawNode<K, V>,
}

impl<K, V> View for Ref<K, V> {
    type V = (K, V);

    closed spec fn view(&self) -> (K, V) {
        self.node@
    }
}

impl<K, V> Ref<K, V> {
    /// Wraps an entry that left the map.
    pub fn new(node: RawNode<K, V>) -> (r: Self)
        ensures
            r@ == node@,
    {
        Ref { node }
    }

    /// Borrows the key of the entry.
    pub fn key(&self) -> (r: &K)
        ensures
            *r == self@.0,
    {
        self.node.key()
    }

    /// Borrows the value of the entry.
    pub fn value(&self) -> (r: &V)
        ensures
            *r == self@.1,
    {
        self.node.value()
    }

    /// Takes ownership of the entry.
    pub fn take_ownership(self) -> (r: RefOwned<K, V>)
        ensures
            r@ == self@,
    {
        RefOwned { node: self.node }
    }
}

/// An entry removed from an RCU hash map and owned by the caller.
pub struct RefOwned<K, V> {
    node: RawNode<K, V>,
}

impl<K, V> View for RefOwned<K, V> {
    type V = (K, V);

    closed spec fn view(&self) -> (K, V) {
        self.node@
    }
}

impl<K, V> RefOwned<K, V> {
    /// Borrows the key of the entry.
    pub fn key(&self) -> (r: &K)
        ensures
            *r == self@.0,
    {
        self.node.key()
    }

    /// Borrows the value of the entry mutably; the key stays as it is.
    pub fn value_mut(&mut self) -> (r: &mut V)
        ensures
            *r == old(self)@.1,
            final(self)@ == (old(self)@.0, *final(r)),
    {
        self.node.value_mut()
    }

    /// Borrows the value of the entry.
    pub fn value(&self) -> (r: &V)
        ensures
            *r == self@.1,
    {
        self.node.value()
    }
}

} // verus!
