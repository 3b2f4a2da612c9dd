[package]
name = "fast-audio-resampler"
version = "0.1.0"
edition = "2021"
publish = false

[dependencies]
hound = "3.5"
pyo3 = { version = "*", features = ["extension-module", "abi3-py39"] }
