[package]
name = "slaxide"
version = "0.1.0"
edition = "2021"
publish = false

[dependencies]
anyhow = "=1.0.104"
async-trait = "=0.1.92"
chrono = { version = "=0.4.45", features = ["serde"] }
emojis = "=0.9.1"
futures-util = "=0.3.34"
gtk4 = "=0.11.5"
keyring = "=4.2.0"
keyring-core = "=1.0.1"
notify-rust = "=4.18.2"
regex = "=1.13.1"
reqwest = { version = "=0.13.5", features = ["form", "json"] }
serde = { version = "=1.0.229", features = ["derive"] }
serde_json = "=1.0.154"
thiserror = "=2.0.21"
tokio = { version = "=1.54.1", features = ["full"] }
tokio-tungstenite = { version = "=0.30.0", features = ["rustls-tls-native-roots"] }
toml = "=1.1.8"
url = { version = "=2.5.8", features = ["serde"] }
uuid = { version = "=1.29.0", features = ["v4", "serde"] }
