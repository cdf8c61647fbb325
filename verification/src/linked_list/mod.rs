//! The linked list with a separate read side and write side.
pub mod container;
pub mod iterator;

pub use crate::linked_list::container::{
    Entry, Node, RcuList, RcuListEntry, RcuListReader, RcuListRef, RcuListRefOwned,
    RcuListWriter, Reader, Writer,
};
pub use crate::linked_list::iterator::{Entries, Iter, RcuListIterator};
pub use crate::reference::{Ref, RefOwned};
