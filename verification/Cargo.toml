[package]
name = "rusty_python"
version = "0.1.0"
edition = "2021"
publish = false

[dependencies]
numpy = "0.21"
pyo3 = "0.21"
