[package]
name = "mycelium"
version = "0.1.0"
edition = "2021"
publish = false

[dependencies]
rand = "=0.8.8"
serde = { version = "=1.0.229", features = ["derive"] }
toml = "=0.8.23"
serde_yaml = "=0.9.34"
tokio = { version = "=1.54.1", features = ["full"] }
tracing = "=0.1.44"
anyhow = "=1.0.104"
thiserror = "=1.0.69"
dashmap = "=5.5.3"
memmap2 = "=0.9.12"
async-trait = "=0.1.92"
indexmap = { version = "=2.14.2", features = ["serde"] }
futures = "=0.3.34"
heck = "=0.5.0"
clap = { version = "=4.6.7", features = ["derive"] }
syn = { version = "=2.0.119", features = ["full"] }
quote = "=1.0.47"
proc-macro2 = "=1.0.107"
