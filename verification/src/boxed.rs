//! An RCU box: one value that writers replace as a whole.
//!
//! Replacing the value hands back the previous one as a [`Ref`], from which the caller
//! can take ownership.
use vstd::prelude::*;

verus! {

/// A box holding one value that can be swapped for another.
pub struct RcuBox<T> {
    data: Box<T>,
}

impl<T> View for RcuBox<T> {
    type V = T;

    closed spec fn view(&self) -> T {
        *self.data
    }
}

impl<T> RcuBox<T> {
    /// Creates a new box holding `data`.
    pub fn new(data: T) -> (r: Self)
        ensures
            r@ == data,
    {
        RcuBox { data: Box::new(data) }
    }

    /// Borrows the value held by the box.
    pub fn as_ref(&self) -> (r: &T)
        ensures
            *r == self@,
    {
        &self.data
    }

    /// Replaces the value held by the box and hands back the previous one.
    pub fn replace(&mut self, data: T) -> (r: Ref<T>)
        ensures
            final(self)@ == data,
            r@ == old(self)@,
    {
        let mut previous = Box::new(data);
        std::mem::swap(&mut previous, &mut self.data);
        Ref::new(previous)
    }
}

/// A value replaced in an [`RcuBox`]; the caller reads it or takes ownership of it.
pub struct Ref<T> {
    data: Box<T>,
}

impl<T> View for Ref<T> {
    type V = T;

    closed spec fn view(&self) -> T {
        *self.data
    }
}

impl<T> Ref<T> {
    /// Wraps a value that left its box.
    pub fn new(data: Box<T>) -> (r: Self)
        ensures
            r@ == *data,
    {
        Ref { data }
    }

    /// Borrows the replaced value.
    pub fn get(&self) -> (r: &T)
        ensures
            *r == self@,
    {
        &self.data
    }

    /// Takes ownership of the replaced value.
    pub fn take_ownership(self) -> (r: Box<T>)
        ensures
            *r == self@,
    {
        self.data
    }
}

} // verus!
