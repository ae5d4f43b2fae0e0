[package]
name = "synapse"
version = "0.1.0"
edition = "2021"
publish = false

[dependencies]
num-traits = { version = "=0.2.19", default-features = false }
spin = "=0.9.9"
atomic_refcell = "=0.1.14"
thiserror = { version = "=2.0.21", default-features = false }
acpi = { version = "=6.1.1", default-features = false }
x86_64 = { version = "=0.15.5", default-features = false, features = ["instructions"] }
