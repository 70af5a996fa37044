[package]
name = "nari_act"
version = "0.1.0"
edition = "2021"
publish = false

[dependencies]
chrono = { version = "0.4", default-features = false, features = ["std"] }
md5 = "0.7"
pyo3 = { version = "0.20", features = ["extension-module"] }
sha2 = "0.10"
