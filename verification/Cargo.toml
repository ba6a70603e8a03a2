[package]
name = "sheet_schema"
version = "0.1.0"
edition = "2021"
publish = false

[dependencies]
calamine = { version = "0.24", features = ["dates"] }
pyo3 = "0.20"
arrow-schema = "50"
