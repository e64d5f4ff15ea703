[package]
name = "subtidal"
version = "0.1.0"
edition = "2021"
publish = false

[dependencies]
base64 = "0.22"
bytes = "1"
chrono = "0.4"
config = { version = "0.15", default-features = false, features = ["toml"] }
futures-util = "0.3"
http = "1"
hyper-util = { version = "0.1", features = ["server", "server-auto", "service", "tokio", "http1", "http2"] }
keyring = { version = "3", default-features = false }
md-5 = "*"
moka = { version = "0.12", features = ["sync"] }
qrcode = { version = "0.14", default-features = false }
rand = "0.9"
reqwest = { version = "0.12", default-features = false, features = ["json"] }
serde = { version = "1", features = ["derive"] }
serde_json = "1"
serde_urlencoded = "0.7"
socket2 = { version = "0.6", features = ["all"] }
tokio = { version = "1", features = ["full"] }
tower-service = "0.3"
tracing = "0.1"
tracing-subscriber = { version = "0.3", features = ["env-filter"] }
warp = { version = "0.4", features = ["server"] }
