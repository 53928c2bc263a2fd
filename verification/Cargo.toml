[package]
name = "websocket_relay"
version = "0.1.0"
edition = "2021"
publish = false

[dependencies]
anyhow = "1"
futures-util = "0.3"
ipnet = "2"
rustls-pemfile = "2"
serde = { version = "1", features = ["derive"] }
tokio = { version = "1", features = ["io-util", "macros", "net", "rt-multi-thread", "time"] }
tokio-rustls = "0.26"
tokio-tungstenite = "0.27"
toml = "0.8"
tracing = "0.1"
tracing-subscriber = "0.3"
