[package]
name = "flow_field"
version = "0.1.0"
edition = "2021"
publish = false

[dependencies]
nannou = { version = "=0.18.1", default-features = false }
nannou_core = { version = "=0.18.0", features = ["std"] }
