//! Register state of x86_64 CPUs.
pub mod register_snapshot;
