[package]
name = "copilot_accounts"
version = "0.1.0"
edition = "2021"
publish = false

[dependencies]
md5 = "0.7"
chrono = "0.4"
serde = { version = "1", features = ["derive"] }
serde_json = "1"
dirs = "*"
reqwest = { version = "0.12", default-features = false, features = ["blocking"] }
