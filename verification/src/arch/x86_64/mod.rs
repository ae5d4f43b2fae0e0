//! The x86_64 architecture: per-CPU memory layout, descriptor tables, interrupts and tasks.
pub mod gdt;
pub mod idt;
pub mod pit;
pub mod scheduler;
pub mod smp;
pub mod task_map;
pub mod util;
