[package]
name = "pkgcraft"
version = "0.1.0"
edition = "2021"
publish = false

[dependencies]
camino = "1"
pyo3 = { version = "0.17", features = ["extension-module"] }
