[package]
name = "hyprosd"
version = "0.1.0"
edition = "2021"
publish = false

[dependencies]
anyhow = "1"
async-channel = "2"
clap = { version = "4", features = ["derive"] }
gtk4 = "*"
gtk4-layer-shell = "*"
notify = "*"
serde = { version = "1", features = ["derive"] }
serde_json = "1"
