//! RCU-style containers with verified contracts: a doubly linked list in two flavours,
//! a queue, a stack, a hash map and a box.
//!
//! Every container is described by a mathematical view (a sequence, a map or a single
//! value), and every operation states in its contract how it reads or changes that
//! view. Elements that leave a container come back as references
//! ([`reference::Ref`], [`hashmap::Ref`], [`boxed::Ref`]) from which the caller can
//! take ownership.
use vstd::prelude::*;

pub mod boxed;
pub mod collections;
pub mod hash_map;
pub mod hashmap;
pub mod linked_list;
pub mod list;
pub mod queue;
pub mod reference;
pub mod stack;
