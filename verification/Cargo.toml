[package]
name = "rarag"
version = "0.1.0"
edition = "2021"
publish = false

[dependencies]
ra_ap_syntax = "=0.0.300"
serde = { version = "=1.0.229", features = ["derive"] }
serde_json = "=1.0.154"
toml = "=0.9.8"
tokio = { version = "=1.54.1", features = ["full"] }
reqwest = { version = "=0.12.28", default-features = false, features = ["json", "rustls-tls"] }
rustix = { version = "=1.1.6", features = ["process"] }
futures = "=0.3.34"
tantivy = "=0.26.2"
