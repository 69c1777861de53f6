[package]
name = "rust_py_monitor"
version = "0.2.0"
edition = "2021"
publish = false

[dependencies]
libc = "0.2"
memmap2 = "0.9"
pyo3 = { version = "0.23", features = ["extension-module"] }
sysinfo = "0.35"
