//! The stack underneath the RCU stack.
//!
//! The stack is viewed as the sequence of its elements from the bottom to the top.
use vstd::prelude::*;

pub use crate::list::raw::RawNode;

verus! {

/// A stack of elements, viewed from the bottom to the top.
pub struct RawStack<T> {
    items: Vec<T>,
}

impl<T> View for RawStack<T> {
    type V = Seq<T>;

    closed spec fn view(&self) -> Seq<T> {
        self.items@
    }
}

impl<T> RawStack<T> {
    /// Creates an empty stack.
    pub fn new() -> (r: Self)
        ensures
            r@ == Seq::<T>::empty(),
    {
        RawStack { items: Vec::new() }
    }

    /// Puts a node on top of the stack.
    pub fn push(&mut self, node: RawNode<T>)
        ensures
            final(self)@ == old(self)@.push(node@),
    {
        self.items.push(node.into_data());
    }

    /// Takes the node on top of the stack, if any.
    pub fn pop(&mut self) -> (r: Option<RawNode<T>>)
        ensures
            old(self)@.len() == 0 ==> r is None && final(self)@ == old(self)@,
            old(self)@.len() > 0 ==> r is Some && r->0@ == old(self)@.last() && final(self)@
                == old(self)@.drop_last(),
    {
        match self.items.pop() {
            Some(data) => Some(RawNode::new(data)),
            None => None,
        }
    }

    /// Takes every node off the stack at once.
    pub fn pop_all(&mut self) -> (r: RawIterRef<T>)
        ensures
            final(self)@ == Seq::<T>::empty(),
            r.remaining() == old(self)@.reverse(),
    {
        let mut items: Vec<T> = Vec::new();
        std::mem::swap(&mut items, &mut self.items);
        RawIterRef::new(items)
    }

    /// Borrows the element on top of the stack, if any.
    pub fn head(&self) -> (r: Option<&T>)
        ensures
            r == (if self@.len() == 0 {
                None::<&T>
            } else {
                Some(&self@.last())
            }),
    {
        if self.items.len() == 0 {
            None
        } else {
            Some(&self.items[self.items.len() - 1])
        }
    }

    /// Returns a cursor from the top of the stack to the bottom.
    pub fn iter(&self) -> (r: RawIter<'_, T>)
        ensures
            r.remaining() == self@.reverse(),
    {
        let r = RawIter { items: &self.items, yielded: 0 };
        assert(r.remaining() =~= self@.reverse());
        r
    }

    /// Returns `true` if the stack holds no element.
    pub fn empty(&self) -> (r: bool)
        ensures
            r == (self@.len() == 0),
    {
        self.items.len() == 0
    }
}

/// A cursor that reads a stack from the top to the bottom.
pub struct RawIter<'a, T> {
    items: &'a Vec<T>,
    yielded: usize,
}

impl<'a, T> RawIter<'a, T> {
    #[verifier::type_invariant]
    spec fn well_formed(self) -> bool {
        self.yielded <= self.items@.len()
    }

    /// The elements that the cursor has yet to yield, in the order it yields them.
    pub closed spec fn remaining(&self) -> Seq<T> {
        self.items@.reverse().skip(self.yielded as int)
    }

    /// Yields the next element, or `None` once every element was yielded.
    pub fn next(&mut self) -> (r: Option<&'a T>)
        ensures
            old(self).remaining().len() == 0 ==> r is None && final(self).remaining() == old(
                self,
            ).remaining(),
            old(self).remaining().len() > 0 ==> r is Some && *r->0 == old(self).remaining()[0]
                && final(self).remaining() == old(self).remaining().drop_first(),
    {
        proof {
            use_type_invariant(&*self);
        }
        let items: &'a Vec<T> = self.items;
        if self.yielded < items.len() {
            let r = &items[items.len() - 1 - self.yielded];
            self.yielded = self.yielded + 1;
            assert(self.remaining() =~= old(self).remaining().drop_first());
            Some(r)
        } else {
            None
        }
    }
}

/// The nodes taken off a stack at once, handed out from the former top to the former
/// bottom.
pub struct RawIterRef<T> {
    items: Vec<T>,
}

impl<T> RawIterRef<T> {
    /// The elements that are still to be handed out, in the order they come out.
    pub closed spec fn remaining(&self) -> Seq<T> {
        self.items@.reverse()
    }

    /// Takes the elements of `items`, the last one coming out first.
    pub fn new(items: Vec<T>) -> (r: Self)
        ensures
            r.remaining() == items@.reverse(),
    {
        RawIterRef { items }
    }

    /// Hands out the next node, or `None` once every node was handed out.
    pub fn next(&mut self) -> (r: Option<RawNode<T>>)
        ensures
            old(self).remaining().len() == 0 ==> r is None && final(self).remaining() == old(
                self,
            ).remaining(),
            old(self).remaining().len() > 0 ==> r is Some && r->0@ == old(self).remaining()[0]
                && final(self).remaining() == old(self).remaining().drop_first(),
    {
        match self.items.pop() {
            Some(data) => {
                assert(self.remaining() =~= old(self).remaining().drop_first());
                Some(RawNode::new(data))
            },
            None => None,
        }
    }
}

} // verus!
