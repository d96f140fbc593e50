[package]
name = "termrender"
version = "0.1.0"
edition = "2021"
publish = false

[dependencies]
crossterm = "0.28"
once_cell = "1"
strip-ansi-escapes = "0.2"
uuid = { version = "1", features = ["v4"] }
pyo3 = "0.22"
