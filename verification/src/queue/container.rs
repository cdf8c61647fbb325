//! The RCU queue.
//!
//! The queue is viewed as the sequence of its elements from the oldest to the newest.
use vstd::prelude::*;

use crate::queue::raw::{RawNode, RawQueue};
use crate::reference::Ref;

verus! {

/// A first-in first-out queue whose removed elements are handed back as references.
pub struct RcuQueue<T> {
    raw: RawQueue<T>,
}

impl<T> View for RcuQueue<T> {
    type V = Seq<T>;

    closed spec fn view(&self) -> Seq<T> {
        self.raw@
    }
}

impl<T> RcuQueue<T> {
    /// Creates an empty queue.
    pub fn new() -> (r: Self)
        ensures
            r@ == Seq::<T>::empty(),
    {
        RcuQueue { raw: RawQueue::new() }
    }

    /// Adds an element at the back of the queue.
    pub fn push(&mut self, data: T)
        ensures
            final(self)@ == old(self)@.push(data),
    {
        self.raw.enqueue(RawNode::new(data));
    }

    /// Takes the element at the front of the queue, if any.
    pub fn pop(&mut self) -> (r: Option<Ref<T>>)
        ensures
            old(self)@.len() == 0 ==> r is None && final(self)@ == old(self)@,
            old(self)@.len() > 0 ==> r is Some && r->0@ == old(self)@.first() && final(self)@
                == old(self)@.drop_first(),
    {
        match self.raw.dequeue() {
            Some(node) => Some(Ref::new(node)),
            None => None,
        }
    }
}

/// First in, first out: on a non-empty queue, pushing and then popping gives the same
/// element and the same queue as popping and then pushing; on an empty queue, the
/// element that was pushed comes straight back out.
pub proof fn law_fifo<T>(items: Seq<T>, x: T)
    ensures
        items.len() == 0 ==> items.push(x).first() == x && items.push(x).drop_first()
            == items,
        items.len() > 0 ==> items.push(x).first() == items.first() && items.push(x).drop_first()
            == items.drop_first().push(x),
{
    assert(items.len() == 0 ==> items.push(x).drop_first() =~= items);
    assert(items.len() > 0 ==> items.push(x).drop_first() =~= items.drop_first().push(x));
}

/// Elements come out of a queue in the order they went in: after pushing `xs` onto an
/// empty queue, the queue holds exactly `xs`, front first.
pub proof fn law_pushes_keep_order<T>(xs: Seq<T>)
    ensures
        xs.fold_left(Seq::<T>::empty(), |q: Seq<T>, x: T| q.push(x)) == xs,
    decreases xs.len(),
{
    if xs.len() > 0 {
        law_pushes_keep_order(xs.drop_last());
        assert(xs.drop_last().push(xs.last()) =~= xs);
    } else {
        assert(xs =~= Seq::<T>::empty());
    }
}

} // verus!
