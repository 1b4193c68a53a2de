[package]
name = "nano_core"
version = "0.1.0"
edition = "2021"
publish = false

[dependencies]
uuid = { version = "=1.29.0", features = ["v4"] }
sha2 = "=0.10.9"
libc = "=0.2.191"
dashmap = "=6.2.1"
tar = "0.4"
serde = { version = "1", features = ["derive"] }
serde_json = "1"
chrono = { version = "0.4", features = ["serde"] }
walkdir = "2"
rand = "0.8"
tokio = { version = "1", features = ["fs", "rt", "io-util", "sync", "time"] }
v8 = "*"
