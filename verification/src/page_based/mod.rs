//! Primitive structures built only on a page allocator, for use in the kernel where no
//! byte-granularity allocator exists.
pub mod node_allocator;

pub mod queue;
