[package]
name = "ledfx_flame"
version = "0.1.0"
edition = "2021"
publish = false

[dependencies]
ndarray = "0.16"
numpy = "0.22"
pyo3 = { version = "0.22", features = ["abi3-py38"] }
rand = { version = "0.8", features = ["small_rng"] }
