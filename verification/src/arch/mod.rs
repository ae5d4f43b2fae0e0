//! Architecture-specific parts of the kernel.
pub mod x86_64;
