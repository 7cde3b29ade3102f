[package]
name = "fanout_broker"
version = "0.1.0"
edition = "2021"
publish = false

[dependencies]
tokio = { version = "*", features = ["rt-multi-thread", "net", "io-util", "sync", "macros"] }
tokio-stream = { version = "*", features = ["sync"] }
futures = "*"
serde = { version = "*", features = ["derive"] }
serde_json = "*"
dotenvy = "*"
log = "*"
colog = "*"
tower = "*"
