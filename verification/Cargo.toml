[package]
name = "base_core"
version = "0.1.0"
edition = "2021"
publish = false

[dependencies]
alloy-primitives = { version = "=1.7.3", features = ["k256"] }
alloy-sol-types = "1.7"
figment = { version = "=0.10.19", features = ["toml", "env"] }
serde = { version = "=1.0.229", features = ["derive"] }
serde_json = "=1.0.154"
eyre = "=0.6.14"
dirs = "=7.0.0"
url = "=2.5.8"
