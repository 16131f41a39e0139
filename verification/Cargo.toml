[package]
name = "fow_rl"
version = "0.1.0"
edition = "2021"
publish = false

[dependencies]
chess = "3"
pyo3 = { version = "*", features = ["abi3-py310", "extension-module"] }
libfuzzer-sys = "0.4"
