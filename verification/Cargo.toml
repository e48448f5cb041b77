[package]
name = "rathole"
version = "0.1.0"
edition = "2021"
publish = false

[dependencies]
axum = { version = "=0.8.9", features = ["ws"] }
chrono = "=0.4.45"
uuid = { version = "=1.29.0", features = ["v4"] }
tokio = { version = "=1.54.1", features = ["full"] }
hyper = { version = "=1.12.0", features = ["full"] }
hyper-util = { version = "=0.1.21", features = ["client-legacy", "http1", "tokio"] }
hyper-rustls = { version = "=0.27.10", default-features = false, features = ["http1", "native-tokio", "ring", "tls12"] }
http-body-util = "=0.1.5"
bytes = "=1.12.1"
serde = { version = "=1.0.229", features = ["derive"] }
serde_json = { version = "=1.0.154", features = ["preserve_order"] }
jsonwebtoken = "=9.3.1"
redis = { version = "=0.27.6", features = ["tokio-comp"] }
reqwest = { version = "=0.12.28", default-features = false, features = ["json"] }
thiserror = "=2.0.21"
anyhow = "=1.0.104"
tracing = "=0.1.44"
tracing-subscriber = { version = "=0.3.23", features = ["env-filter"] }
atty = "=0.2.14"
toml = "=0.8.23"
tokio-tungstenite = "=0.29.0"
futures-util = { version = "=0.3.34", features = ["sink"] }
