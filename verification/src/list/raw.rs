//! The doubly linked list underneath the RCU lists.
//!
//! The list is kept as a sequence ordered from its front to its back. Inserting at the
//! back appends, inserting at the front prepends, and the removal functions hand back
//! the node that left the list.
use std::collections::VecDeque;

use vstd::prelude::*;

verus! {

/// A node carrying one element of a list.
pub struct RawNode<T> {
    data: T,
}

impl<T> View for RawNode<T> {
    type V = T;

    closed spec fn view(&self) -> T {
        self.data
    }
}

impl<T> RawNode<T> {
    /// Creates a node holding `data`.
    pub fn new(data: T) -> (r: Self)
        ensures
            r@ == data,
    {
        RawNode { data }
    }

    /// Borrows the element of the node.
    pub fn data(&self) -> (r: &T)
        ensures
            *r == self@,
    {
        &self.data
    }

    /// Borrows the element of the node mutably.
    pub fn data_mut(&mut self) -> (r: &mut T)
        ensures
            *r == old(self)@,
            final(self)@ == *final(r),
    {
        &mut self.data
    }

    /// Consumes the node and returns its element.
    pub fn into_data(self) -> (r: T)
        ensures
            r == self@,
    {
        self.data
    }
}

/// A list of elements, viewed from its front to its back.
pub struct RawList<T> {
    items: VecDeque<T>,
}

impl<T> View for RawList<T> {
    type V = Seq<T>;

    closed spec fn view(&self) -> Seq<T> {
        self.items@
    }
}

impl<T> RawList<T> {
    /// Creates an empty list.
    pub fn new() -> (r: Self)
        ensures
            r@ == Seq::<T>::empty(),
    {
        RawList { items: VecDeque::new() }
    }

    /// Returns the number of elements.
    pub fn len(&self) -> (r: usize)
        ensures
            r == self@.len(),
    {
        self.items.len()
    }

    /// Returns `true` if the list holds no element.
    pub fn empty(&self) -> (r: bool)
        ensures
            r == (self@.len() == 0),
    {
        self.items.len() == 0
    }

    /// Adds a node at the back of the list.
    pub fn insert_back(&mut self, node: RawNode<T>)
        ensures
            final(self)@ == old(self)@.push(node@),
    {
        self.items.push_back(node.into_data());
    }

    /// Adds a node at the front of the list.
    pub fn insert_front(&mut self, node: RawNode<T>)
        ensures
            final(self)@ == seq![node@] + old(self)@,
    {
        self.items.push_front(node.into_data());
    }

    /// Adds a node so that it stands at position `index`, counted from the front.
    pub fn insert_at(&mut self, index: usize, node: RawNode<T>)
        requires
            index <= old(self)@.len(),
        ensures
            final(self)@ == old(self)@.insert(index as int, node@),
    {
        self.items.insert(index, node.into_data());
    }

    /// Removes the node at the back of the list, if any.
    pub fn remove_back(&mut self) -> (r: Option<RawNode<T>>)
        ensures
            old(self)@.len() == 0 ==> r is None && final(self)@ == old(self)@,
            old(self)@.len() > 0 ==> r is Some && r->0@ == old(self)@.last() && final(self)@
                == old(self)@.drop_last(),
    {
        match self.items.pop_back() {
            Some(data) => {
                assert(self@ =~= old(self)@.drop_last());
                Some(RawNode::new(data))
            },
            None => None,
        }
    }

    /// Removes the node at the front of the list, if any.
    pub fn remove_front(&mut self) -> (r: Option<RawNode<T>>)
        ensures
            old(self)@.len() == 0 ==> r is None && final(self)@ == old(self)@,
            old(self)@.len() > 0 ==> r is Some && r->0@ == old(self)@.first() && final(self)@
                == old(self)@.drop_first(),
    {
        match self.items.pop_front() {
            Some(data) => {
                assert(self@ =~= old(self)@.drop_first());
                Some(RawNode::new(data))
            },
            None => None,
        }
    }

    /// Removes the node at position `index`, counted from the front.
    pub fn remove_at(&mut self, index: usize) -> (r: RawNode<T>)
        requires
            index < old(self)@.len(),
        ensures
            r@ == old(self)@[index as int],
            final(self)@ == old(self)@.remove(index as int),
    {
        match self.items.remove(index) {
            Some(data) => RawNode::new(data),
            None => vstd::pervasive::unreached(),
        }
    }

    /// Borrows the element at the back of the list, if any.
    pub fn get_back(&self) -> (r: Option<&T>)
        ensures
            r == (if self@.len() == 0 {
                None::<&T>
            } else {
                Some(&self@.last())
            }),
    {
        if self.items.len() == 0 {
            None
        } else {
            Some(&self.items[self.items.len() - 1])
        }
    }

    /// Borrows the element at the front of the list, if any.
    pub fn get_front(&self) -> (r: Option<&T>)
        ensures
            r == (if self@.len() == 0 {
                None::<&T>
            } else {
                Some(&self@.first())
            }),
    {
        if self.items.len() == 0 {
            None
        } else {
            Some(&self.items[0])
        }
    }

    /// Borrows the element at position `index`, counted from the front.
    pub fn get(&self, index: usize) -> (r: &T)
        requires
            index < self@.len(),
        ensures
            *r == self@[index as int],
    {
        &self.items[index]
    }
}

/// The order in which an iterator visits a list: from the back to the front when
/// `from_back` holds, from the front to the back otherwise.
pub open spec fn visit_order<T>(items: Seq<T>, from_back: bool) -> Seq<T> {
    if from_back {
        items.reverse()
    } else {
        items
    }
}

/// A cursor over the elements of a [`RawList`].
pub struct RawIter<'a, T> {
    items: &'a VecDeque<T>,
    yielded: usize,
    from_back: bool,
}

impl<'a, T> RawIter<'a, T> {
    #[verifier::type_invariant]
    spec fn well_formed(self) -> bool {
        self.yielded <= self.items@.len()
    }

    /// The elements that the cursor has yet to yield, in the order it yields them.
    pub closed spec fn remaining(&self) -> Seq<T> {
        visit_order(self.items@, self.from_back).skip(self.yielded as int)
    }

    /// Starts a cursor at the back of `list` that moves toward the front.
    pub fn from_back(list: &'a RawList<T>) -> (r: Self)
        ensures
            r.remaining() == list@.reverse(),
    {
        let r = RawIter { items: &list.items, yielded: 0, from_back: true };
        assert(r.remaining() =~= list@.reverse());
        r
    }

    /// Starts a cursor at the front of `list` that moves toward the back.
    pub fn from_front(list: &'a RawList<T>) -> (r: Self)
        ensures
            r.remaining() == list@,
    {
        let r = RawIter { items: &list.items, yielded: 0, from_back: false };
        assert(r.remaining() =~= list@);
        r
    }

    /// Starts a cursor at position `start` of the order in which `list` is visited:
    /// counted from the back when `from_back` holds, from the front otherwise.
    pub fn new_at(list: &'a RawList<T>, from_back: bool, start: usize) -> (r: Self)
        requires
            start <= list@.len(),
        ensures
            r.remaining() == visit_order(list@, from_back).skip(start as int),
    {
        RawIter { items: &list.items, yielded: start, from_back }
    }

    /// Yields the next element, or `None` once every element was yielded.
    pub fn next(&mut self) -> (r: Option<&'a T>)
        ensures
            old(self).remaining().len() == 0 ==> r is None && final(self).remaining() == old(
                self,
            ).remaining(),
            old(self).remaining().len() > 0 ==> r is Some && *r->0 == old(self).remaining()[0]
                && final(self).remaining() == old(self).remaining().drop_first(),
    {
        proof {
            use_type_invariant(&*self);
        }
        let items: &'a VecDeque<T> = self.items;
        if self.yielded < items.len() {
            let index = if self.from_back {
                items.len() - 1 - self.yielded
            } else {
                self.yielded
            };
            let r = &items[index];
            let ghost order = visit_order(items@, self.from_back);
            self.yielded = self.yielded + 1;
            assert(self.remaining() =~= old(self).remaining().drop_first());
            assert(order[old(self).yielded as int] == items@[index as int]);
            Some(r)
        } else {
            assert(old(self).remaining().len() == 0);
            None
        }
    }
}

} // verus!
