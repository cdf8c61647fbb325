//! Iteration over a linked list from either end.
use vstd::prelude::*;

use crate::linked_list::container::Reader;
use crate::list::raw::RawIter;

verus! {

/// An iterator over the elements of a linked list.
pub struct Iter<'a, T> {
    raw: RawIter<'a, T>,
}

impl<'a, T> Iter<'a, T> {
    /// The elements that the iterator has yet to yield, in the order it yields them.
    pub closed spec fn remaining(&self) -> Seq<T> {
        self.raw.remaining()
    }

    /// Starts at the element at position `start` of the reader's list, counted from the head, and
    /// walks toward the tail; with no start it yields nothing.
    pub fn new_forward(reader: &Reader<'a, T>, start: Option<usize>) -> (r: Self)
        requires
            start matches Some(j) ==> j < reader.list@.len(),
        ensures
            r.remaining() == match start {
                Some(j) => reader.list@.skip(j as int),
                None => Seq::<T>::empty(),
            },
    {
        let list = reader.list.raw();
        match start {
            Some(j) => Iter { raw: RawIter::new_at(list, false, j) },
            None => {
                let len = list.len();
                let r = Iter { raw: RawIter::new_at(list, false, len) };
                assert(r.remaining() =~= Seq::<T>::empty());
                r
            },
        }
    }

    /// Starts at the element at position `start` of the reader's list, counted from the head, and
    /// walks toward the head; with no start it yields nothing.
    pub fn new_reverse(reader: &Reader<'a, T>, start: Option<usize>) -> (r: Self)
        requires
            start matches Some(j) ==> j < reader.list@.len(),
        ensures
            r.remaining() == match start {
                Some(j) => reader.list@.take(j + 1).reverse(),
                None => Seq::<T>::empty(),
            },
    {
        let list = reader.list.raw();
        let len = list.len();
        match start {
            Some(j) => {
                let r = Iter { raw: RawIter::new_at(list, true, len - 1 - j) };
                assert(r.remaining() =~= list@.take(j + 1).reverse());
                r
            },
            None => {
                let r = Iter { raw: RawIter::new_at(list, true, len) };
                assert(r.remaining() =~= Seq::<T>::empty());
                r
            },
        }
    }

    /// Yields the next element, or `None` once every element was yielded.
    pub fn next(&mut self) -> (r: Option<&'a T>)
        ensures
            old(self).remaining().len() == 0 ==> r is None && final(self).remaining() == old(
                self,
            ).remaining(),
            old(self).remaining().len() > 0 ==> r is Some && *r->0 == old(self).remaining()[0]
                && final(self).remaining() == old(self).remaining().drop_first(),
    {
        self.raw.next()
    }

    /// Collects copies of the elements that the iterator has yet to yield.
    pub fn to_vec(self) -> (r: Vec<T>)
        where
            T: Copy,
        ensures
            r@ == self.remaining(),
    {
        let mut iter = self;
        let ghost all = iter.remaining();
        let mut out: Vec<T> = Vec::new();
        loop
            invariant
                all == self.remaining(),
                all == out@ + iter.remaining(),
            decreases iter.remaining().len(),
        {
            let ghost before = iter.remaining();
            match iter.next() {
                Some(item) => {
                    out.push(*item);
                    assert(all =~= out@ + iter.remaining()) by {
                        assert(before =~= seq![*item] + before.drop_first());
                    }
                },
                None => {
                    assert(all =~= out@);
                    return out;
                },
            }
        }
    }
}

/// The positions of the entries of a linked list, handed out in walking order: from the
/// head to the tail, or from the tail to the head. Each position, counted from the head,
/// designates one entry (see [`Writer::entry`](crate::linked_list::Writer::entry)).
pub struct Entries {
    left: usize,
    len: usize,
    forward: bool,
}

impl Entries {
    #[verifier::type_invariant]
    spec fn well_formed(self) -> bool {
        self.left <= self.len
    }

    /// The positions that are still to be handed out, in order.
    pub closed spec fn remaining(&self) -> Seq<int> {
        Seq::new(
            self.left as nat,
            |i: int|
                if self.forward {
                    self.len - self.left + i
                } else {
                    self.left - 1 - i
                },
        )
    }

    /// Walks the positions `0..len`, from the head (`forward`) or from the tail.
    pub fn new(len: usize, forward: bool) -> (r: Self)
        ensures
            r.remaining() == Seq::new(
                len as nat,
                |i: int|
                    if forward {
                        i
                    } else {
                        len - 1 - i
                    },
            ),
    {
        let r = Entries { left: len, len, forward };
        assert(r.remaining() =~= Seq::new(
            len as nat,
            |i: int|
                if forward {
                    i
                } else {
                    len - 1 - i
                },
        ));
        r
    }

    /// Hands out the next position, or `None` once every position was handed out.
    pub fn next(&mut self) -> (r: Option<usize>)
        ensures
            old(self).remaining().len() == 0 ==> r is None && final(self).remaining() == old(
                self,
            ).remaining(),
            old(self).remaining().len() > 0 ==> (r matches Some(p) && p == old(self).remaining()[0])
                && final(self).remaining() == old(self).remaining().drop_first(),
    {
        proof {
            use_type_invariant(&*self);
        }
        if self.left == 0 {
            None
        } else {
            let p = if self.forward {
                self.len - self.left
            } else {
                self.left - 1
            };
            self.left = self.left - 1;
            assert(self.remaining() =~= old(self).remaining().drop_first());
            Some(p)
        }
    }
}

/// An iterator over a linked list, under its longer name.
pub type RcuListIterator<'a, T> = Iter<'a, T>;

} // verus!
