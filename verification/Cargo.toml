[package]
name = "code2prompt_core"
version = "0.1.0"
edition = "2021"
publish = false

[dependencies]
serde = { version = "1", features = ["derive"] }
serde_json = "1"
pyo3 = "*"
anyhow = "1"
log = "0.4"
