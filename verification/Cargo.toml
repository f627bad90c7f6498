[package]
name = "twitch_voice_reader"
version = "0.1.0"
edition = "2021"
publish = false

[dependencies]
regex = "=1.13.1"
whatlang = "=0.18.0"
uuid = { version = "=1.29.0", features = ["v4"] }
chrono = "=0.4.45"
tokio = { version = "=1.54.1", features = ["full"] }
serde = { version = "=1.0.229", features = ["derive"] }
serde_json = "=1.0.154"
reqwest = { version = "=0.12.28", default-features = false, features = ["json", "stream", "rustls-tls"] }
rusqlite = { version = "=0.40.2", features = ["bundled"] }
r2d2 = "=0.8.10"
r2d2_sqlite = "=0.35.0"
keyring = "=3.6.3"
parking_lot = "=0.12.5"
thiserror = "=1.0.69"
anyhow = "=1.0.104"
tracing = "=0.1.44"
tracing-subscriber = { version = "=0.3.23", features = ["env-filter"] }
futures-util = "=0.3.34"
tokio-tungstenite = { version = "=0.24.0", features = ["rustls-tls-webpki-roots"] }
axum = { version = "=0.7.9", features = ["ws"] }
zip = { version = "=2.6.1", default-features = false, features = ["deflate"] }
tar = "=0.4.46"
flate2 = "=1.1.10"
cpal = "=0.15.3"
rodio = { version = "=0.19.0", default-features = false }
