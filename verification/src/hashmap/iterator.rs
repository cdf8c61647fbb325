//! Iteration over the entries of an RCU hash map.
use vstd::prelude::*;

use crate::hashmap::raw::RawIter;

verus! {

/// An iterator over the entries of an [`RcuHashMap`](crate::hashmap::container::RcuHashMap).
pub struct Iter<'a, K, V> {
    raw: RawIter<'a, K, V>,
}

impl<'a, K, V> Iter<'a, K, V> {
    /// The entries that the iterator has yet to yield, in the order it yields them.
    pub closed spec fn remaining(&self) -> Seq<(K, V)> {
        self.raw.remaining()
    }

    /// Wraps a cursor over a table.
    pub fn new(raw: RawIter<'a, K, V>) -> (r: Self)
        ensures
            r.remaining() == raw.remaining(),
    {
        Iter { raw }
    }

    /// Yields the key and the value of the next entry, or `None` once every entry was
    /// yielded.
    pub fn next(&mut self) -> (r: Option<(&'a K, &'a V)>)
        ensures
            old(self).remaining().len() == 0 ==> r is None && final(self).remaining() == old(
                self,
            ).remaining(),
            old(self).remaining().len() > 0 ==> (r matches Some(p) && (*p.0, *p.1) == old(
                self,
            ).remaining()[0]) && final(self).remaining() == old(self).remaining().drop_first(),
    {
        match self.raw.get() {
            Some(node) => {
                self.raw.next();
                Some(node.as_refs())
            },
            None => None,
        }
    }

    /// Collects copies of the entries that the iterator has yet to yield.
    pub fn to_vec(self) -> (r: Vec<(K, V)>)
        where
            K: Copy,
            V: Copy,
        ensures
            r@ == self.remaining(),
    {
        let mut iter = self;
        let ghost all = iter.remaining();
        let mut out: Vec<(K, V)> = Vec::new();
        loop
            invariant
                all == self.remaining(),
                all == out@ + iter.remaining(),
            decreases iter.remaining().len(),
        {
            let ghost before = iter.remaining();
            match iter.next() {
                Some((key, value)) => {
                    out.push((*key, *value));
                    assert(all =~= out@ + iter.remaining()) by {
                        assert(before =~= seq![(*key, *value)] + before.drop_first());
                    }
                },
                None => {
                    assert(all =~= out@);
                    return out;
                },
            }
        }
    }
}

} // verus!
