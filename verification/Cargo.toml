[package]
name = "oh_my_droid"
version = "0.1.0"
edition = "2021"
publish = false

[dependencies]
anyhow = "1"
clap = "4"
dirs = "5"
owo-colors = "4"
serde = { version = "1", features = ["derive"] }
toml = "0.8"
url = "2"
