[package]
name = "riceforge"
version = "0.1.0"
edition = "2021"
publish = false

[dependencies]
chrono = { version = "0.4", features = ["serde"] }
dirs = "5"
serde = { version = "1", features = ["derive"] }
serde_json = "1"
toml = "0.8"
walkdir = "2"
thiserror = "1"
anyhow = "1"
clap = { version = "4", features = ["derive", "env"] }
clap_complete = "4"
colored = "2"
indicatif = "0.17"
