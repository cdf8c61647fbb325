//! The RCU stack.
//!
//! The stack is viewed as the sequence of its elements from the bottom to the top.
//! Its iterators go from the top to the bottom.
use vstd::prelude::*;

use crate::reference::Ref;
use crate::stack::iterator::{Iter, IterRef};
use crate::stack::raw::{RawNode, RawStack};

verus! {

/// A last-in first-out stack whose removed elements are handed back as references.
pub struct RcuStack<T> {
    raw: RawStack<T>,
}

impl<T> View for RcuStack<T> {
    type V = Seq<T>;

    closed spec fn view(&self) -> Seq<T> {
        self.raw@
    }
}

impl<T> RcuStack<T> {
    /// Creates an empty stack.
    pub fn new() -> (r: Self)
        ensures
            r@ == Seq::<T>::empty(),
    {
        RcuStack { raw: RawStack::new() }
    }

    /// Puts an element on top of the stack.
    pub fn push(&mut self, data: T)
        ensures
            final(self)@ == old(self)@.push(data),
    {
        self.raw.push(RawNode::new(data));
    }

    /// Takes the element on top of the stack, if any.
    pub fn pop(&mut self) -> (r: Option<Ref<T>>)
        ensures
            old(self)@.len() == 0 ==> r is None && final(self)@ == old(self)@,
            old(self)@.len() > 0 ==> r is Some && r->0@ == old(self)@.last() && final(self)@
                == old(self)@.drop_last(),
    {
        match self.raw.pop() {
            Some(node) => Some(Ref::new(node)),
            None => None,
        }
    }

    /// Takes every element off the stack; they come out from the top to the bottom.
    pub fn pop_all(&mut self) -> (r: IterRef<T>)
        ensures
            final(self)@ == Seq::<T>::empty(),
            r.remaining() == old(self)@.reverse(),
    {
        IterRef::new(self.raw.pop_all())
    }

    /// Borrows the element on top of the stack, if any.
    pub fn peek(&self) -> (r: Option<&T>)
        ensures
            r == (if self@.len() == 0 {
                None::<&T>
            } else {
                Some(&self@.last())
            }),
    {
        self.raw.head()
    }

    /// Returns an iterator from the top of the stack to the bottom.
    pub fn iter(&self) -> (r: Iter<'_, T>)
        ensures
            r.remaining() == self@.reverse(),
    {
        Iter::new(self.raw.iter())
    }

    /// Returns `true` if the stack holds no element.
    pub fn is_empty(&self) -> (r: bool)
        ensures
            r == (self@.len() == 0),
    {
        self.raw.empty()
    }
}

/// Last in, first out: pushing an element and then popping gives that element back and
/// leaves the stack as it was; the pushed element is the one `peek` shows.
pub proof fn law_push_pop<T>(items: Seq<T>, x: T)
    ensures
        items.push(x).last() == x,
        items.push(x).drop_last() == items,
{
    assert(items.push(x).drop_last() =~= items);
}

/// `iter` and `pop_all` visit the elements from the top down: the first one they yield
/// is the one `peek` shows, and the last one is the bottom of the stack.
pub proof fn law_top_down_order<T>(items: Seq<T>)
    requires
        items.len() > 0,
    ensures
        items.reverse()[0] == items.last(),
        items.reverse()[items.len() - 1] == items.first(),
{
}

} // verus!
