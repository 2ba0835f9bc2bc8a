[package]
name = "aiconfigurator_core"
version = "0.1.0"
edition = "2021"
publish = false

[dependencies]
serde = { version = "1", features = ["derive"] }
thiserror = "2"
serde_yaml = "0.9"
parquet = { version = "*", default-features = false }
