//! Iteration over an RCU stack, and over the elements taken off it at once.
use vstd::prelude::*;

use crate::reference::Ref;
use crate::stack::raw::{RawIter, RawIterRef};

verus! {

/// An iterator over the elements of an [`RcuStack`](crate::stack::container::RcuStack),
/// from the top to the bottom.
pub struct Iter<'a, T> {
    raw: RawIter<'a, T>,
}

impl<'a, T> Iter<'a, T> {
    /// The elements that the iterator has yet to yield, in the order it yields them.
    pub closed spec fn remaining(&self) -> Seq<T> {
        self.raw.remaining()
    }

    /// Wraps a cursor over a stack.
    pub fn new(raw: RawIter<'a, T>) -> (r: Self)
        ensures
            r.remaining() == raw.remaining(),
    {
        Iter { raw }
    }

    /// Yields the next element, or `None` once every element was yielded.
    pub fn next(&mut self) -> (r: Option<&'a T>)
        ensures
            old(self).remaining().len() == 0 ==> r is None && final(self).remaining() == old(
                self,
            ).remaining(),
            old(self).remaining().len() > 0 ==> r is Some && *r->0 == old(self).remaining()[0]
                && final(self).remaining() == old(self).remaining().drop_first(),
    {
        self.raw.next()
    }

    /// Collects copies of the elements that the iterator has yet to yield.
    pub fn to_vec(self) -> (r: Vec<T>)
        where
            T: Copy,
        ensures
            r@ == self.remaining(),
    {
        let mut iter = self;
        let ghost all = iter.remaining();
        let mut out: Vec<T> = Vec::new();
        loop
            invariant
                all == self.remaining(),
                all == out@ + iter.remaining(),
            decreases iter.remaining().len(),
        {
            let ghost before = iter.remaining();
            match iter.next() {
                Some(item) => {
                    out.push(*item);
                    assert(all =~= out@ + iter.remaining()) by {
                        assert(before =~= seq![*item] + before.drop_first());
                    }
                },
                None => {
                    assert(all =~= out@);
                    return out;
                },
            }
        }
    }
}

/// The elements taken off a stack at once, handed out as references from the former
/// top to the former bottom.
pub struct IterRef<T> {
    raw: RawIterRef<T>,
}

impl<T> IterRef<T> {
    /// The elements that are still to be handed out, in the order they come out.
    pub closed spec fn remaining(&self) -> Seq<T> {
        self.raw.remaining()
    }

    /// Wraps the nodes taken off a stack.
    pub fn new(raw: RawIterRef<T>) -> (r: Self)
        ensures
            r.remaining() == raw.remaining(),
    {
        IterRef { raw }
    }

    /// Hands out the next element, or `None` once every element was handed out.
    pub fn next(&mut self) -> (r: Option<Ref<T>>)
        ensures
            old(self).remaining().len() == 0 ==> r is None && final(self).remaining() == old(
                self,
            ).remaining(),
            old(self).remaining().len() > 0 ==> r is Some && r->0@ == old(self).remaining()[0]
                && final(self).remaining() == old(self).remaining().drop_first(),
    {
        match self.raw.next() {
            Some(node) => Some(Ref::new(node)),
            None => None,
        }
    }

    /// Hands out every remaining element, in order.
    pub fn collect(self) -> (r: Vec<Ref<T>>)
        ensures
            r@.len() == self.remaining().len(),
            forall|i: int| 0 <= i < r@.len() ==> (#[trigger] r@[i])@ == self.remaining()[i],
    {
        let mut iter = self;
        let ghost all = iter.remaining();
        let mut out: Vec<Ref<T>> = Vec::new();
        loop
            invariant
                all == self.remaining(),
                out@.len() + iter.remaining().len() == all.len(),
                forall|i: int| 0 <= i < out@.len() ==> (#[trigger] out@[i])@ == all[i],
                iter.remaining() == all.skip(out@.len() as int),
            decreases iter.remaining().len(),
        {
            match iter.next() {
                Some(r) => {
                    out.push(r);
                    assert(iter.remaining() =~= all.skip(out@.len() as int));
                },
                None => {
                    return out;
                },
            }
        }
    }
}

} // verus!
