[package]
name = "sekou_taisei"
version = "0.1.0"
edition = "2021"
publish = false

[dependencies]
regex = "1"
base64 = "0.22"
anyhow = "1"
clap = { version = "4", features = ["derive"] }
ignore = "0.4"
chrono = { version = "0.4", features = ["serde"] }
serde = { version = "1", features = ["derive"] }
serde_json = "1"
