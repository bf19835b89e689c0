[package]
name = "subway"
version = "0.1.0"
edition = "2021"
publish = false

[dependencies]
serde = { version = "=1.0.229", features = ["derive"] }
serde_json = "=1.0.154"
regex = "=1.13.1"
validator = "=0.18.1"
url = "=2.5.8"
dashmap = "=6.2.1"
nanoid = "=0.4.0"
random_word = { version = "=0.4.3", features = ["en"] }
http = "=1.5.0"
tokio = { version = "=1.54.1", features = ["full"] }
axum = { version = "=0.7.9", features = ["ws"] }
reqwest = { version = "=0.12.28", default-features = false, features = ["json", "rustls-tls"] }
clap = { version = "=4.6.7", features = ["derive"] }
tokio-tungstenite = "=0.24.0"
futures-util = "=0.3.34"
dirs = "=5.0.1"
dotenv = "=0.15.0"
rpassword = "=7.5.4"
anyhow = "=1.0.104"
tracing = "=0.1.44"
tracing-subscriber = "=0.3.23"
axum-server = { version = "0.7", features = ["tls-rustls-no-provider"] }
tower-http = { version = "=0.6.11", features = ["normalize-path"] }
tower-layer = "=0.3.3"
rustls = { version = "=0.23.46", default-features = false, features = ["ring"] }
