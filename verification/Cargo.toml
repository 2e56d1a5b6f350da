[package]
name = "catalog_audit"
version = "0.1.0"
edition = "2021"
publish = false

[dependencies]
serde_yaml = "=0.9.34"
serde_json = { version = "=1.0.151", features = ["preserve_order"] }
glob = "=0.3.4"
anyhow = "=1.0.104"
clap = { version = "=4.6.7", features = ["derive"] }
