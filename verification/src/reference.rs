//! References to the elements that the RCU containers give up.
use vstd::prelude::*;

use crate::list::raw::RawNode;

verus! {

/// An element removed from a container; the caller reads it or takes ownership of it.
pub struct Ref<T> {
    node: RawNode<T>,
}

impl<T> View for Ref<T> {
    type V = T;

    closed spec fn view(&self) -> T {
        self.node@
    }
}

impl<T> Ref<T> {
    /// Wraps a node that left its container.
    pub fn new(node: RawNode<T>) -> (r: Self)
        ensures
            r@ == node@,
    {
        Ref { node }
    }

    /// Borrows the removed element.
    pub fn get(&self) -> (r: &T)
        ensures
            *r == self@,
    {
        self.node.data()
    }

    /// Takes ownership of the removed element.
    pub fn take_ownership(self) -> (r: RefOwned<T>)
        ensures
            r@ == self@,
    {
        RefOwned { node: self.node }
    }
}

/// An element removed from a container and owned by the caller.
pub struct RefOwned<T> {
    node: RawNode<T>,
}

impl<T> View for RefOwned<T> {
    type V = T;

    closed spec fn view(&self) -> T {
        self.node@
    }
}

impl<T> RefOwned<T> {
    /// Borrows the owned element.
    pub fn get(&self) -> (r: &T)
        ensures
            *r == self@,
    {
        self.node.data()
    }

    /// Borrows the owned element mutably.
    pub fn get_mut(&mut self) -> (r: &mut T)
        ensures
            *r == old(self)@,
            final(self)@ == *final(r),
    {
        self.node.data_mut()
    }

    /// Consumes the reference and returns the element.
    pub fn into_inner(self) -> (r: T)
        ensures
            r == self@,
    {
        self.node.into_data()
    }
}

} // verus!
