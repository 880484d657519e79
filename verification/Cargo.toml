[package]
name = "fugle_marketdata"
version = "0.1.0"
edition = "2021"
publish = false

[dependencies]
indexmap = "=2.14.2"
url = "=2.5.8"
serde = { version = "=1.0.229", features = ["derive"] }
serde_json = "=1.0.154"
tungstenite = { version = "=0.30.0", features = ["rustls-tls-native-roots"] }
rustls = "=0.23.46"
rustls-native-certs = "=0.8.5"
