[package]
name = "netprobe"
version = "0.1.0"
edition = "2021"
publish = false

[dependencies]
pnet = "*"
tokio = { version = "1", features = ["rt", "macros", "sync", "time", "fs", "io-util"] }
futures = "0.3"
serde = { version = "1", features = ["derive"] }
serde_json = "1"
sys-info = "*"
