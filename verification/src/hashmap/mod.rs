//! The RCU hash map.
pub mod container;
pub mod iterator;
pub mod raw;
pub mod reference;

pub use crate::hashmap::container::RcuHashMap;
pub use crate::hashmap::iterator::Iter;
pub use crate::hashmap::reference::{Ref, RefOwned};
