//! Iteration over the elements of an RCU list.
use vstd::prelude::*;

use crate::list::raw::RawIter;

verus! {

/// An iterator over the elements of an [`RcuList`](crate::list::container::RcuList).
pub struct Iter<'a, T> {
    raw: RawIter<'a, T>,
}

impl<'a, T> Iter<'a, T> {
    /// The elements that the iterator has yet to yield, in the order it yields them.
    pub closed spec fn remaining(&self) -> Seq<T> {
        self.raw.remaining()
    }

    /// Wraps a cursor over a list.
    pub fn new(raw: RawIter<'a, T>) -> (r: Self)
        ensures
            r.remaining() == raw.remaining(),
    {
        Iter { raw }
    }

    /// Yields the next element, or `None` once every element was yielded.
    pub fn next(&mut self) -> (r: Option<&'a T>)
        ensures
            old(self).remaining().len() == 0 ==> r is None && final(self).remaining() == old(
                self,
            ).remaining(),
            old(self).remaining().len() > 0 ==> r is Some && *r->0 == old(self).remaining()[0]
                && final(self).remaining() == old(self).remaining().drop_first(),
    {
        self.raw.next()
    }

    /// Collects copies of the elements that the iterator has yet to yield.
    pub fn to_vec(self) -> (r: Vec<T>)
        where
            T: Copy,
        ensures
            r@ == self.remaining(),
    {
        let mut iter = self;
        let ghost all = iter.remaining();
        let mut out: Vec<T> = Vec::new();
        loop
            invariant
                all == self.remaining(),
                all == out@ + iter.remaining(),
            decreases iter.remaining().len(),
        {
            let ghost before = iter.remaining();
            match iter.next() {
                Some(item) => {
                    out.push(*item);
                    assert(all =~= out@ + iter.remaining()) by {
                        assert(before =~= seq![*item] + before.drop_first());
                    }
                },
                None => {
                    assert(all =~= out@);
                    return out;
                },
            }
        }
    }
}

} // verus!
