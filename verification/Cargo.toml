[package]
name = "compute_pi"
version = "0.1.0"
edition = "2021"
publish = false

[dependencies]
pyo3 = "*"
