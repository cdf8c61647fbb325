//! The RCU doubly linked list.
pub mod container;
pub mod iterator;
pub mod raw;

pub use crate::list::container::RcuList;
pub use crate::list::iterator::Iter;
pub use crate::reference::{Ref, RefOwned};
