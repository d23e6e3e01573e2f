[package]
name = "l2_cli"
version = "0.1.0"
edition = "2021"
publish = false

[dependencies]
anyhow = "1"
clap = { version = "4", features = ["derive"] }
colored = "2"
dialoguer = "0.11"
dirs = "5"
include_dir = "0.7"
serde = { version = "1", features = ["derive"] }
toml = "0.8"
