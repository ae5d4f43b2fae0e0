//! Multi-processor support: the per-CPU memory regions and CPU state.
pub mod per_cpu_data;
pub mod cpu_stack;
pub mod cpu_state;
pub mod relocation;
pub mod trampoline;
pub mod startup;
