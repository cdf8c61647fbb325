//! A doubly linked list with a split read side and write side.
//!
//! The list is viewed as the sequence of its elements from the head to the tail.
//! Readers walk it forward (head to tail) or in reverse (tail to head); the writer adds
//! and removes elements at either end, and an [`Entry`] edits the list around one
//! element.
use vstd::prelude::*;

use crate::linked_list::iterator::{Entries, Iter};
use crate::list::raw::{RawList, RawNode};
use crate::reference::Ref;

verus! {

/// A doubly linked list whose readers and writer are separate handles.
pub struct RcuList<T> {
    raw: RawList<T>,
}

impl<T> View for RcuList<T> {
    type V = Seq<T>;

    closed spec fn view(&self) -> Seq<T> {
        self.raw@
    }
}

impl<T> RcuList<T> {
    /// Creates an empty list.
    pub fn new() -> (r: Self)
        ensures
            r@ == Seq::<T>::empty(),
    {
        RcuList { raw: RawList::new() }
    }

    /// Returns the read side of the list.
    pub fn reader(&self) -> (r: Reader<'_, T>)
        ensures
            *r.list == *self,
    {
        Reader { list: self }
    }

    /// Returns the write side of the list.
    pub fn writer(&mut self) -> (r: Writer<'_, T>)
        ensures
            r.list@ == old(self)@,
            final(r.list)@ == final(self)@,
    {
        Writer { list: self }
    }

    /// Borrows the list underneath.
    pub(crate) fn raw(&self) -> (r: &RawList<T>)
        ensures
            r@ == self@,
    {
        &self.raw
    }

    /// Returns the number of elements.
    pub(crate) fn len(&self) -> (r: usize)
        ensures
            r == self@.len(),
    {
        self.raw.len()
    }

    /// Borrows the element at position `index`, counted from the head.
    pub(crate) fn get(&self, index: usize) -> (r: &T)
        requires
            index < self@.len(),
        ensures
            *r == self@[index as int],
    {
        self.raw.get(index)
    }

    /// Adds `data` so that it stands at position `index`, counted from the head.
    pub(crate) fn insert_at(&mut self, index: usize, data: T)
        requires
            index <= old(self)@.len(),
        ensures
            final(self)@ == old(self)@.insert(index as int, data),
    {
        self.raw.insert_at(index, RawNode::new(data));
    }

    /// Removes the element at position `index`, counted from the head.
    pub(crate) fn remove_at(&mut self, index: usize) -> (r: Ref<T>)
        requires
            index < old(self)@.len(),
        ensures
            r@ == old(self)@[index as int],
            final(self)@ == old(self)@.remove(index as int),
    {
        Ref::new(self.raw.remove_at(index))
    }
}

/// The read side of an [`RcuList`].
pub struct Reader<'a, T> {
    pub list: &'a RcuList<T>,
}

impl<'a, T> Reader<'a, T> {
    /// Returns an iterator from the head to the tail.
    pub fn iter_forward(&self) -> (r: Iter<'a, T>)
        ensures
            r.remaining() == self.list@,
    {
        let len = self.list.raw.len();
        if len == 0 {
            let r = Iter::new_forward(self, None);
            assert(r.remaining() =~= self.list@);
            r
        } else {
            let r = Iter::new_forward(self, Some(0));
            assert(r.remaining() =~= self.list@);
            r
        }
    }

    /// Returns an iterator from the tail to the head.
    pub fn iter_reverse(&self) -> (r: Iter<'a, T>)
        ensures
            r.remaining() == self.list@.reverse(),
    {
        let len = self.list.raw.len();
        if len == 0 {
            let r = Iter::new_reverse(self, None);
            assert(r.remaining() =~= self.list@.reverse());
            r
        } else {
            let r = Iter::new_reverse(self, Some(len - 1));
            assert(self.list@.take(len as int) =~= self.list@);
            r
        }
    }
}

/// The write side of an [`RcuList`].
pub struct Writer<'a, T> {
    pub list: &'a mut RcuList<T>,
}

impl<'a, T> Writer<'a, T> {
    /// Returns the number of elements; the writer is the only one that can count them,
    /// since nothing else changes the list while it is held.
    pub fn len(&self) -> (r: usize)
        ensures
            r == old(self.list)@.len(),
    {
        self.list.len()
    }

    /// Walks the positions of the entries from the head to the tail.
    pub fn entries_forward(&self) -> (r: Entries)
        ensures
            r.remaining() == Seq::new(old(self.list)@.len(), |i: int| i),
    {
        let r = Entries::new(self.list.len(), true);
        assert(r.remaining() =~= Seq::new(self.list@.len(), |i: int| i));
        r
    }

    /// Walks the positions of the entries from the tail to the head.
    pub fn entries_reverse(&self) -> (r: Entries)
        ensures
            r.remaining() == Seq::new(
                old(self.list)@.len(),
                |i: int| old(self.list)@.len() - 1 - i,
            ),
    {
        let r = Entries::new(self.list.len(), false);
        assert(r.remaining() =~= Seq::new(
            self.list@.len(),
            |i: int| self.list@.len() - 1 - i,
        ));
        r
    }

    /// Designates the entry at position `index`, counted from the head, if there is one.
    pub fn entry(&mut self, index: usize) -> (r: Option<Entry<'_, T>>)
        ensures
            r is Some <==> index < old(self).list@.len(),
            r matches Some(e) ==> e.index == index && e.list@ == old(self).list@
                && final(e.list)@ == final(self).list@,
            r is None ==> final(self).list@ == old(self).list@,
            final(final(self).list)@ == final(old(self).list)@,
    {
        if index < self.list.len() {
            Some(Entry::new(&mut *self.list, index))
        } else {
            None
        }
    }

    /// Removes the element at the tail, if any.
    pub fn pop_back(&mut self) -> (r: Option<Ref<T>>)
        ensures
            old(self).list@.len() == 0 ==> r is None && final(self).list@ == old(self).list@,
            old(self).list@.len() > 0 ==> r is Some && r->0@ == old(self).list@.last()
                && final(self).list@ == old(self).list@.drop_last(),
            final(final(self).list)@ == final(old(self).list)@,
    {
        let len = self.list.len();
        if len == 0 {
            None
        } else {
            let r = self.list.remove_at(len - 1);
            assert(self.list@ =~= old(self).list@.drop_last());
            Some(r)
        }
    }

    /// Removes the element at the head, if any.
    pub fn pop_front(&mut self) -> (r: Option<Ref<T>>)
        ensures
            old(self).list@.len() == 0 ==> r is None && final(self).list@ == old(self).list@,
            old(self).list@.len() > 0 ==> r is Some && r->0@ == old(self).list@.first()
                && final(self).list@ == old(self).list@.drop_first(),
            final(final(self).list)@ == final(old(self).list)@,
    {
        if self.list.len() == 0 {
            None
        } else {
            let r = self.list.remove_at(0);
            assert(self.list@ =~= old(self).list@.drop_first());
            Some(r)
        }
    }

    /// Adds an element at the tail.
    pub fn push_back(&mut self, data: T)
        ensures
            final(self).list@ == old(self).list@.push(data),
            final(final(self).list)@ == final(old(self).list)@,
    {
        let len = self.list.len();
        self.list.insert_at(len, data);
        assert(self.list@ =~= old(self).list@.push(data));
    }

    /// Adds an element at the head.
    pub fn push_front(&mut self, data: T)
        ensures
            final(self).list@ == seq![data] + old(self).list@,
            final(final(self).list)@ == final(old(self).list)@,
    {
        self.list.insert_at(0, data);
        assert(self.list@ =~= seq![data] + old(self).list@);
    }
}

/// One element of an [`RcuList`], around which the list can be edited.
pub struct Entry<'a, T> {
    pub list: &'a mut RcuList<T>,
    pub index: usize,
}

impl<'a, T> Entry<'a, T> {
    /// Designates the element at position `index` of `list`, counted from the head.
    pub fn new(list: &'a mut RcuList<T>, index: usize) -> (r: Self)
        requires
            index < old(list)@.len(),
        ensures
            r.list@ == old(list)@,
            final(r.list)@ == final(list)@,
            r.index == index,
    {
        Entry { list, index }
    }

    /// Borrows the element of this entry.
    pub fn get(&self) -> (r: &T)
        requires
            self.index < self.list@.len(),
        ensures
            *r == old(self.list)@[self.index as int],
    {
        self.list.get(self.index)
    }

    /// Inserts an element right after this entry.
    pub fn insert_after(&mut self, data: T)
        requires
            old(self).index < old(self).list@.len(),
        ensures
            final(self).list@ == old(self).list@.insert(old(self).index + 1, data),
            final(self).index == old(self).index,
            final(final(self).list)@ == final(old(self).list)@,
    {
        let len = self.list.len();
        assert(self.index < len);
        self.list.insert_at(self.index + 1, data);
    }

    /// Inserts an element right before this entry.
    pub fn insert_before(&mut self, data: T)
        requires
            old(self).index < old(self).list@.len(),
        ensures
            final(self).list@ == old(self).list@.insert(old(self).index as int, data),
            final(self).index == old(self).index + 1,
            final(final(self).list)@ == final(old(self).list)@,
    {
        let len = self.list.len();
        assert(self.index < len);
        self.list.insert_at(self.index, data);
        self.index = self.index + 1;
    }

    /// Removes this entry from the list.
    pub fn remove(self) -> (r: Ref<T>)
        requires
            self.index < self.list@.len(),
        ensures
            r@ == old(self.list)@[self.index as int],
            final(self.list)@ == old(self.list)@.remove(self.index as int),
    {
        let Entry { list, index } = self;
        list.remove_at(index)
    }
}

/// Inserting after an entry and then removing the new element restores the list.
pub proof fn law_insert_after_then_remove<T>(items: Seq<T>, index: int, x: T)
    requires
        0 <= index < items.len(),
    ensures
        items.insert(index + 1, x)[index + 1] == x,
        items.insert(index + 1, x)[index] == items[index],
        items.insert(index + 1, x).remove(index + 1) == items,
{
    assert(items.insert(index + 1, x).remove(index + 1) =~= items);
}

/// Inserting before an entry moves the entry one place toward the tail, and removing
/// the new element restores the list.
pub proof fn law_insert_before_then_remove<T>(items: Seq<T>, index: int, x: T)
    requires
        0 <= index < items.len(),
    ensures
        items.insert(index, x)[index] == x,
        items.insert(index, x)[index + 1] == items[index],
        items.insert(index, x).remove(index) == items,
{
    assert(items.insert(index, x).remove(index) =~= items);
}

/// The reverse iterator visits the elements in exactly the opposite order of the
/// forward iterator.
pub proof fn law_reader_directions_mirror<T>(items: Seq<T>)
    ensures
        items.reverse().reverse() == items,
        forall|i: int|
            0 <= i < items.len() ==> #[trigger] items.reverse()[i] == items[items.len() - 1 - i],
{
    assert(items.reverse().reverse() =~= items);
}

/// The read side of an [`RcuList`], under its longer name.
pub type RcuListReader<'a, T> = Reader<'a, T>;

/// The write side of an [`RcuList`], under its longer name.
pub type RcuListWriter<'a, T> = Writer<'a, T>;

/// One element of an [`RcuList`], under its longer name.
pub type RcuListEntry<'a, T> = Entry<'a, T>;

/// An element removed from an [`RcuList`], under its longer name.
pub type RcuListRef<T> = Ref<T>;

/// An element removed from an [`RcuList`] and owned by the caller, under its longer
/// name.
pub type RcuListRefOwned<T> = crate::reference::RefOwned<T>;

/// The node type of an [`RcuList`].
pub type Node<T> = RawNode<T>;

} // verus!
