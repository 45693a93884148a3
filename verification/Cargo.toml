[package]
name = "lotus_script"
version = "0.1.0"
edition = "2021"
publish = false

[dependencies]
serde = { version = "1", features = ["derive"] }
serde_json = "1"
rmp-serde = "1"
serde_repr = "0.1"
thiserror = "1"
clap = { version = "4", features = ["derive"] }
anyhow = "1"
toml = "0.8"
cargo_toml = "0.20"
dirs = "5"
tracing = "0.1"
tracing-subscriber = "0.3"
