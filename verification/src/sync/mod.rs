//! Synchronisation between processors.
pub mod cpu_mutex;
