[package]
name = "vitaline"
version = "0.1.0"
edition = "2021"
publish = false

[dependencies]
anyhow = "1"
base64 = "0.22"
chrono = "0.4"
keyring = { version = "3", features = ["apple-native", "windows-native"] }
objc2 = "0.5"
objc2-foundation = { version = "0.2", features = ["NSGeometry"] }
opener = "0.7"
parking_lot = "0.12"
reqwest = { version = "0.12", default-features = false, features = ["rustls-tls"] }
serde = { version = "1", features = ["derive"] }
serde_json = "1"
tokio = { version = "1", features = ["time", "sync", "macros", "rt"] }
urlencoding = "2"
