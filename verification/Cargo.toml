[package]
name = "darwinx"
version = "0.1.0"
edition = "2021"
publish = false

[dependencies]
anyhow = "=1.0.104"
async-trait = "=0.1.92"
chrono = "=0.4.45"
polars = { version = "=0.51.0", default-features = false, features = ["csv", "parquet"] }
rand = "0.8"
serde = { version = "=1.0.229", features = ["derive"] }
serde_json = "=1.0.154"
thiserror = "=2.0.21"
tokio = { version = "1", default-features = false, features = ["sync"] }
