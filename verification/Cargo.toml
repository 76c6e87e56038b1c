[package]
name = "module_lookup"
version = "0.1.0"
edition = "2021"
publish = false

[dependencies]
symbolic = { version = "*", features = ["debuginfo"] }
futures = "*"
