[package]
name = "gemini_crawler"
version = "0.1.0"
edition = "2021"
publish = false

[dependencies]
url = "2"
mime = "0.3"
petgraph = { version = "0.6", features = ["serde-1"] }
serde = { version = "1", features = ["derive"] }
bincode = "1"
tokio = { version = "1", features = ["full"] }
tokio-native-tls = "0.3"
native-tls = "0.2"
futures = "0.3"
