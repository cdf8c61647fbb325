//! The RCU containers, gathered under one module.
pub use crate::boxed;
pub use crate::hashmap;
pub use crate::list;
pub use crate::queue;
pub use crate::stack;
