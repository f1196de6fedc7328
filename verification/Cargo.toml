[package]
name = "gateway_session"
version = "0.1.0"
edition = "2021"
publish = false

[dependencies]
serde_json = "1"
tokio = { version = "1", features = ["rt-multi-thread", "macros", "sync", "time", "fs", "io-util", "net"] }
tokio-tungstenite = { version = "*", features = ["native-tls"] }
futures-util = "0.3"
reqwest = { version = "0.12", features = ["blocking"] }
dotenv = "0.15"
once_cell = "1"
