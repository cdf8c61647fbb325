//! The RCU doubly linked list and the references to the elements it gives up.
//!
//! The list is viewed as the sequence of its elements from the front to the back.
//! `push_back` and `pop_back` work on the back end, `push_front` and `pop_front` on
//! the front end. `iter_forward` yields the elements from the back to the front and
//! `iter_reverse` from the front to the back.
use vstd::laws_eq::obeys_concrete_eq;
use vstd::prelude::*;
use vstd::std_specs::cmp::PartialEqSpec;

use crate::list::iterator::Iter;
use crate::list::raw::{RawIter, RawList, RawNode};
use crate::reference::Ref;

verus! {

/// A doubly linked list that hands back the elements it gives up as references.
pub struct RcuList<T> {
    raw: RawList<T>,
}

impl<T> View for RcuList<T> {
    type V = Seq<T>;

    closed spec fn view(&self) -> Seq<T> {
        self.raw@
    }
}

/// Whether some element of `items` is equal to `x` under `T`'s equality.
pub open spec fn seq_holds_equal<T: PartialEq>(items: Seq<T>, x: T) -> bool {
    exists|i: int| 0 <= i < items.len() && #[trigger] items[i].eq_spec(&x)
}

impl<T> RcuList<T> {
    /// Creates an empty list.
    pub fn new() -> (r: Self)
        ensures
            r@ == Seq::<T>::empty(),
    {
        RcuList { raw: RawList::new() }
    }

    /// Returns `true` if the list holds an element equal to `x`.
    pub fn contains(&self, x: &T) -> (r: bool)
        where
            T: PartialEq,
        ensures
            self@.len() == 0 ==> !r,
            T::obeys_eq_spec() ==> (r == seq_holds_equal(self@, *x)),
            obeys_concrete_eq::<T>() ==> (r == self@.contains(*x)),
    {
        proof {
            reveal(obeys_concrete_eq);
        }
        let len = self.raw.len();
        let mut i: usize = 0;
        while i < len
            invariant
                len == self@.len(),
                i <= len,
                T::obeys_eq_spec() ==> forall|j: int| 0 <= j < i ==> !(#[trigger] self@[j].eq_spec(x)),
                obeys_concrete_eq::<T>() ==> forall|j: int| 0 <= j < i ==> #[trigger] self@[j] != *x,
            decreases len - i,
        {
            let item = self.raw.get(i);
            proof {
                reveal(obeys_concrete_eq);
            }
            if item.eq(x) {
                assert(obeys_concrete_eq::<T>() ==> self@[i as int] == *x);
                return true;
            }
            i = i + 1;
        }
        false
    }

    /// Adds an element at the back of the list.
    pub fn push_back(&mut self, data: T)
        ensures
            final(self)@ == old(self)@.push(data),
    {
        self.raw.insert_back(RawNode::new(data));
    }

    /// Adds an element at the front of the list.
    pub fn push_front(&mut self, data: T)
        ensures
            final(self)@ == seq![data] + old(self)@,
    {
        self.raw.insert_front(RawNode::new(data));
    }

    /// Removes the element at the back of the list, if any.
    pub fn pop_back(&mut self) -> (r: Option<Ref<T>>)
        ensures
            old(self)@.len() == 0 ==> r is None && final(self)@ == old(self)@,
            old(self)@.len() > 0 ==> r is Some && r->0@ == old(self)@.last() && final(self)@
                == old(self)@.drop_last(),
    {
        match self.raw.remove_back() {
            Some(node) => Some(Ref::new(node)),
            None => None,
        }
    }

    /// Removes the element at the front of the list, if any.
    pub fn pop_front(&mut self) -> (r: Option<Ref<T>>)
        ensures
            old(self)@.len() == 0 ==> r is None && final(self)@ == old(self)@,
            old(self)@.len() > 0 ==> r is Some && r->0@ == old(self)@.first() && final(self)@
                == old(self)@.drop_first(),
    {
        match self.raw.remove_front() {
            Some(node) => Some(Ref::new(node)),
            None => None,
        }
    }

    /// Returns `true` if the list holds no element.
    pub fn is_empty(&self) -> (r: bool)
        ensures
            r == (self@.len() == 0),
    {
        self.raw.empty()
    }

    /// Borrows the element at the back of the list, or `None` if the list is empty.
    pub fn back(&self) -> (r: Option<&T>)
        ensures
            r == (if self@.len() == 0 {
                None::<&T>
            } else {
                Some(&self@.last())
            }),
    {
        self.raw.get_back()
    }

    /// Borrows the element at the front of the list, or `None` if the list is empty.
    pub fn front(&self) -> (r: Option<&T>)
        ensures
            r == (if self@.len() == 0 {
                None::<&T>
            } else {
                Some(&self@.first())
            }),
    {
        self.raw.get_front()
    }

    /// Returns an iterator that yields the elements from the back to the front.
    pub fn iter_forward(&self) -> (r: Iter<'_, T>)
        ensures
            r.remaining() == self@.reverse(),
    {
        Iter::new(RawIter::from_back(&self.raw))
    }

    /// Returns an iterator that yields the elements from the front to the back.
    pub fn iter_reverse(&self) -> (r: Iter<'_, T>)
        ensures
            r.remaining() == self@,
    {
        Iter::new(RawIter::from_front(&self.raw))
    }
}

/// Pushing an element at the back and then popping the back gives that element back
/// and leaves the list as it was.
pub proof fn law_push_back_pop_back<T>(items: Seq<T>, x: T)
    ensures
        items.push(x).len() > 0,
        items.push(x).last() == x,
        items.push(x).drop_last() == items,
{
    assert(items.push(x).drop_last() =~= items);
}

/// Pushing an element at the front and then popping the front gives that element back
/// and leaves the list as it was.
pub proof fn law_push_front_pop_front<T>(items: Seq<T>, x: T)
    ensures
        (seq![x] + items).len() > 0,
        (seq![x] + items).first() == x,
        (seq![x] + items).drop_first() == items,
{
    assert((seq![x] + items).drop_first() =~= items);
}

/// A push at one end does not change what is seen at the other end of a non-empty
/// list.
pub proof fn law_push_keeps_other_end<T>(items: Seq<T>, x: T)
    requires
        items.len() > 0,
    ensures
        items.push(x).first() == items.first(),
        (seq![x] + items).last() == items.last(),
{
}

/// Iterating forward visits the elements in exactly the opposite order of iterating in
/// reverse: the forward iterator starts at the back and ends at the front.
pub proof fn law_iter_forward_mirrors_iter_reverse<T>(items: Seq<T>)
    ensures
        items.reverse().len() == items.len(),
        forall|i: int|
            0 <= i < items.len() ==> #[trigger] items.reverse()[i] == items[items.len() - 1 - i],
        items.len() > 0 ==> items.reverse()[0] == items.last() && items.reverse()[items.len()
            - 1] == items.first(),
{
}

/// An element that was just pushed is found by `contains`, when the element type's
/// equality is reflexive.
pub proof fn law_contains_pushed<T: PartialEq>(items: Seq<T>, x: T)
    requires
        x.eq_spec(&x),
    ensures
        seq_holds_equal(items.push(x), x),
        seq_holds_equal(seq![x] + items, x),
{
    assert(items.push(x)[items.len() as int] == x);
    assert((seq![x] + items)[0] == x);
}

} // verus!
