//! A microkernel's core data structures and address arithmetic, with their contracts.
use vstd::prelude::*;

pub mod types;
pub mod errors;
pub mod stack;
pub mod pager;
pub mod page_stack;
pub mod arch;
pub mod page_based;
pub mod page_based_list;
pub mod scheduler;
pub mod logger;
pub mod sync;

pub use types::Address;
