[package]
name = "yt-dlp-ng"
version = "0.1.0"
edition = "2021"
publish = false

[dependencies]
anyhow = "1"
async-trait = "0.1"
clap = { version = "4", features = ["derive"] }
futures = "0.3"
regex = "=1.13.1"
reqwest = { version = "0.12", default-features = false, features = ["cookies", "rustls-tls", "stream"] }
rquickjs = "=0.14.0"
serde = { version = "1", features = ["derive"] }
serde_json = "=1.0.154"
tokio = { version = "1", features = ["fs", "io-util", "macros", "rt-multi-thread", "time"] }
tracing = "0.1"
tracing-subscriber = "0.3"
url = "=2.5.8"
urlencoding = "=2.1.3"
