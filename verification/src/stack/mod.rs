//! The RCU stack.
pub mod container;
pub mod iterator;
pub mod raw;

pub use crate::reference::{Ref, RefOwned};
pub use crate::stack::container::RcuStack;
pub use crate::stack::iterator::{Iter, IterRef};
