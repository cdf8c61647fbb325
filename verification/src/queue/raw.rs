//! The queue underneath the RCU queue.
//!
//! The queue is viewed as the sequence of its elements from the oldest to the newest.
use std::collections::VecDeque;

use vstd::prelude::*;

pub use crate::list::raw::RawNode;

verus! {

/// A first-in first-out queue, viewed from the oldest element to the newest.
pub struct RawQueue<T> {
    items: VecDeque<T>,
}

impl<T> View for RawQueue<T> {
    type V = Seq<T>;

    closed spec fn view(&self) -> Seq<T> {
        self.items@
    }
}

impl<T> RawQueue<T> {
    /// Creates an empty queue.
    pub fn new() -> (r: Self)
        ensures
            r@ == Seq::<T>::empty(),
    {
        RawQueue { items: VecDeque::new() }
    }

    /// Adds a node at the back of the queue.
    pub fn enqueue(&mut self, node: RawNode<T>)
        ensures
            final(self)@ == old(self)@.push(node@),
    {
        self.items.push_back(node.into_data());
    }

    /// Takes the node at the front of the queue, if any.
    pub fn dequeue(&mut self) -> (r: Option<RawNode<T>>)
        ensures
            old(self)@.len() == 0 ==> r is None && final(self)@ == old(self)@,
            old(self)@.len() > 0 ==> r is Some && r->0@ == old(self)@.first() && final(self)@
                == old(self)@.drop_first(),
    {
        match self.items.pop_front() {
            Some(data) => {
                assert(self@ =~= old(self)@.drop_first());
                Some(RawNode::new(data))
            },
            None => None,
        }
    }

    /// Takes every node of the queue, from the front to the back.
    pub fn dequeue_all(&mut self) -> (r: Vec<RawNode<T>>)
        ensures
            final(self)@ == Seq::<T>::empty(),
            r@.len() == old(self)@.len(),
            forall|i: int| 0 <= i < r@.len() ==> (#[trigger] r@[i])@ == old(self)@[i],
    {
        let mut out: Vec<RawNode<T>> = Vec::new();
        loop
            invariant
                out@.len() + self@.len() == old(self)@.len(),
                forall|i: int| 0 <= i < out@.len() ==> (#[trigger] out@[i])@ == old(self)@[i],
                self@ == old(self)@.skip(out@.len() as int),
            decreases self@.len(),
        {
            match self.dequeue() {
                Some(node) => {
                    out.push(node);
                    assert(self@ =~= old(self)@.skip(out@.len() as int));
                },
                None => {
                    return out;
                },
            }
        }
    }
}

} // verus!
