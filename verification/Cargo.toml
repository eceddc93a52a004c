[package]
name = "authentik"
version = "0.1.0"
edition = "2021"
publish = false

[dependencies]
http = "=1.5.0"
forwarded-header-value = "=0.1.1"
client-ip = "=0.2.1"
ipnet = { version = "=2.12.2", features = ["serde"] }
pem = "=3.0.6"
url = "=2.5.8"
tungstenite = "=0.30.0"
tokio = { version = "=1.54.1", features = ["full"] }
axum = "=0.8.9"
axum-server = { version = "=0.8.0", features = ["tls-rustls"] }
rustls = "=0.23.46"
tokio-rustls = "=0.26.6"
hyper = "=1.12.0"
hyper-util = { version = "=0.1.21", features = ["client-legacy", "tokio", "http1"] }
hyper-unix-socket = "=0.7.0"
http-body-util = "=0.1.5"
tokio-tungstenite = "=0.30.0"
tokio-util = "=0.7.20"
eyre = "=0.6.14"
futures = "=0.3.34"
nix = { version = "=0.31.3", features = ["signal"] }
arc-swap = "=1.9.3"
rcgen = "=0.14.10"
time = "=0.3.55"
tracing = "=0.1.44"
pin-project-lite = "=0.2.17"
tower = "=0.5.3"
serde = { version = "1", features = ["derive"] }
serde_json = "=1.0.154"
rustls-pemfile = "=2.2.0"
