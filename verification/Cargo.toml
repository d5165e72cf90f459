[package]
name = "auralflow"
version = "0.2.0"
edition = "2021"
publish = false

[dependencies]
keyring = { version = "3", features = ["apple-native", "windows-native", "linux-native"] }
reqwest = { version = "0.12", default-features = false, features = ["json", "multipart", "rustls-tls", "stream"] }
serde = { version = "1", features = ["derive"] }
serde_json = "1"
thiserror = "2"
tokio = { version = "1", features = ["fs", "io-util", "rt"] }
futures-util = "0.3"
arboard = "3"
objc2-core-foundation = "0.3"
objc2-core-graphics = "0.3"
