[package]
name = "stl-rs"
version = "0.1.4"
edition = "2021"
publish = false

[dependencies]
pyo3 = { version = "0.22", features = ["extension-module"] }
