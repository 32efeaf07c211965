[package]
name = "contract_engine"
version = "0.1.0"
edition = "2021"
publish = false

[dependencies]
actix-web = "=4.18.1"
anyhow = "=1.0.104"
blake3 = "=1.8.7"
deadpool-postgres = "=0.14.2"
env_logger = "=0.11.11"
futures = "=0.3.34"
hex = "=0.4.3"
rand = "=0.9.5"
serde = { version = "=1.0.229", features = ["derive"] }
serde_json = { version = "=1.0.154", features = ["raw_value"] }
tokio = { version = "=1.54.1", features = ["rt", "sync", "macros"] }
tokio-postgres = "=0.7.18"
wasmtime = { version = "=46.0.3", default-features = false, features = ["cranelift", "runtime"] }
