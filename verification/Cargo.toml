[package]
name = "youarel"
version = "0.1.0"
edition = "2021"
publish = false

[dependencies]
anyhow = "=1.0.104"
axum = "0.6"
axum-server = { version = "0.5", features = ["tls-rustls"] }
base64 = "=0.21.7"
bincode = "=1.3.3"
blake3 = "=1.8.7"
chrono = { version = "=0.4.45", features = ["serde"] }
clap = { version = "=4.6.7", features = ["derive"] }
clap-verbosity-flag = "=2.2.3"
directories = "=5.0.1"
rcgen = "=0.11.3"
rustls = "=0.21.12"
serde = { version = "=1.0.229", features = ["derive"] }
sled = "=0.34.7"
tokio = { version = "=1.54.1", features = ["macros", "rt-multi-thread", "signal"] }
tower-http = { version = "0.4", features = ["fs"] }
tracing = "=0.1.44"
tracing-subscriber = "=0.3.23"
url = { version = "=2.5.8", features = ["serde"] }
