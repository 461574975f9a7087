[package]
name = "tcp_bridge"
version = "0.1.0"
edition = "2021"
publish = false

[dependencies]
tokio = { version = "1", features = ["rt-multi-thread", "net", "io-util", "sync", "macros"] }
tokio-tungstenite = "*"
futures-util = "0.3"
