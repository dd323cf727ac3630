[package]
name = "oracledb-pyshim"
version = "0.1.0"
edition = "2021"
publish = false

[dependencies]
arrow-array = { version = "=60.1.0", features = ["ffi"] }
arrow-schema = { version = "=60.1.0", features = ["ffi"] }
pyo3 = { version = "=0.30.1", features = ["experimental-async"] }
serde_json = "=1.0.154"
