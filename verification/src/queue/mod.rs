//! The RCU queue.
pub mod container;
pub mod raw;

pub use crate::queue::container::RcuQueue;
pub use crate::reference::{Ref, RefOwned};
