[package]
name = "zynsearch"
version = "0.1.0"
edition = "2021"
publish = false

[dependencies]
rust-stemmers = "1"
stop-words = "*"
crossbeam-skiplist = "0.1"
serde = { version = "1", features = ["derive"] }
serde_json = "1"
bincode = "1"
clap = { version = "4", features = ["derive", "env"] }
tokio = { version = "1", features = ["full"] }
walkdir = "2"
axum = "0.7"
axum-server = { version = "0.7", features = ["tls-rustls"] }
base64 = "0.22"
object_store = { version = "*", features = ["aws"] }
futures = "0.3"
