[package]
name = "connectorx"
version = "0.1.0"
edition = "2021"
publish = false

[dependencies]
chrono = { version = "0.4", default-features = false, features = ["std"] }
itertools = "*"
ndarray = "*"
numpy = "*"
pyo3 = "*"
rayon = "1"
