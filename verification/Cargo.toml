[package]
name = "node_launcher"
version = "0.1.0"
edition = "2021"
publish = false

[dependencies]
semver_rs = "*"
serde_json = "*"
clap = { version = "*", features = ["derive"] }
