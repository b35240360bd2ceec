[package]
name = "conductor"
version = "0.1.0"
edition = "2021"
publish = false

[dependencies]
serde_json = "*"
rusqlite = { version = "*", features = ["bundled"] }
rand = "0.8"
uuid = { version = "*", features = ["v4"] }
regex = "*"
chrono = "*"
clap = { version = "*", features = ["derive"] }
