[package]
name = "botarr"
version = "0.1.0"
edition = "2021"
publish = false

[dependencies]
anyhow = "*"
async-trait = "*"
axum = "*"
chrono = "*"
futures = "*"
native-tls = "*"
reqwest = { version = "*", features = ["json"] }
rusqlite = "*"
scraper = "*"
serde = { version = "*", features = ["derive"] }
serde_json = "*"
tokio = { version = "*", features = ["full"] }
tokio-native-tls = "*"
tokio-socks = "*"
tokio-util = "*"
tracing = "*"
tracing-subscriber = { version = "*", features = ["env-filter"] }
urlencoding = "*"
uuid = { version = "*", features = ["v4"] }
