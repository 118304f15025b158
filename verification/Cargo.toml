[package]
name = "screenshare"
version = "0.1.0"
edition = "2021"
publish = false

[dependencies]
anyhow = "1"
clap = { version = "4", features = ["derive", "env"] }
cpal = "0.15"
env-libvpx-sys = "5"
futures-util = "0.3"
image = { version = "=0.25.10", default-features = false }
opus = "0.3"
parking_lot = "0.12"
qrcode = { version = "=0.14.1", default-features = false, features = ["image"] }
reqwest = { version = "0.12", default-features = false, features = ["json", "rustls-tls"] }
serde = { version = "1", features = ["derive"] }
serde_json = "1"
socket2 = "0.5"
tokio = { version = "1", features = ["full"] }
tokio-tungstenite = { version = "0.24", features = ["rustls-tls-webpki-roots"] }
tracing = "0.1"
tracing-subscriber = { version = "0.3", features = ["env-filter"] }
vpx-encode = "0.5"
webrtc = "=0.11.0"
yuvutils-rs = "=0.8.3"
