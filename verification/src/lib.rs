//! Small abstraction over index-style iteration over a vector, with
//! deletion, insertion, and other operations on the vector while iterating.
//!
//! A pass hands out one [`VecMutationHandle`] per element that it comes to.
//! Through the handle the element can be read, replaced or discarded,
//! elements can be inserted after it, later elements can be peeked at or
//! skipped, and the pass can be stopped. Changes are applied at once; no
//! handle reaches an element before its own.
//!
//! A pass is made either by calling [`VecMutationHandle::new`] in a loop,
//! with a cursor of one's own, or by [`mutate_vec_by_handles`], which runs
//! that loop with a callback.
pub mod derived;
pub mod driver;
pub mod forward_index;
pub mod handle;
pub mod pass;

pub use crate::driver::{
    mutate_vec_by_handles, mutate_vec_by_handles_decreasing, VecMutateByHandles,
};
pub use crate::forward_index::ForwardIndex;
pub use crate::handle::VecMutationHandle;
