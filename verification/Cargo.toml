[package]
name = "toonpy"
version = "0.1.0"
edition = "2021"
publish = false

[dependencies]
toon = "=0.1.2"
toon-format = "*"
serde_json = "=1.0.151"
pyo3 = "=0.29.3"
once_cell = "=1.21.4"
