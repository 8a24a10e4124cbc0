[package]
name = "lightarchitects-webshell"
version = "0.1.0"
edition = "2021"
publish = false

[dependencies]
async-trait = "=0.1.92"
axum = { version = "=0.7.9", features = ["ws"] }
chrono = "=0.4.45"
dashmap = "=6.2.1"
dirs-next = "2"
futures-util = "=0.3.34"
nix = { version = "0.29", features = ["signal", "process"] }
portable-pty = "0.8"
regex = "=1.13.1"
reqwest = { version = "0.12", default-features = false, features = ["json", "stream", "rustls-tls"] }
rusqlite = { version = "0.32", features = ["bundled"] }
secrecy = "0.10"
serde = { version = "=1.0.229", features = ["derive"] }
serde_json = "=1.0.154"
serde_yaml = "0.9"
similar = "=2.7.0"
thiserror = "1"
tokio = { version = "=1.54.1", features = ["rt-multi-thread", "macros", "process", "sync", "time", "fs", "io-util", "net"] }
tokio-util = "0.7"
toml = "=0.8.23"
tower-http = { version = "0.6", features = ["cors"] }
tracing = "=0.1.44"
unicode-segmentation = "=1.13.3"
url = "=2.5.8"
uuid = { version = "=1.29.0", features = ["v4"] }
