[package]
name = "dht_service"
version = "0.1.0"
edition = "2021"
publish = false

[dependencies]
hex = "0.4"
rand = "0.9"
tokio = { version = "1", features = ["sync", "time", "rt", "macros", "net"] }
tokio-stream = "0.1"
