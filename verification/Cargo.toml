[package]
name = "icthub-server"
version = "0.1.0"
edition = "2021"
publish = false

[dependencies]
anyhow = "=1.0.104"
axum = { version = "=0.8.9", features = ["multipart"] }
dotenvy = "=0.15.7"
encoding_rs = "=0.8.44"
mime_guess = "=2.0.5"
pdf-extract = "=0.12.1"
quick-xml = "=0.42.0"
reqwest = { version = "=0.12.28", default-features = false, features = ["json"] }
serde = { version = "=1.0.229", features = ["derive"] }
serde_json = "=1.0.154"
sha2 = "=0.10.9"
sqlx = { version = "=0.8.6", default-features = false, features = ["runtime-tokio", "sqlite", "migrate", "macros"] }
tokio = { version = "=1.54.1", features = ["full"] }
tokio-util = { version = "=0.7.20", features = ["io"] }
tower-http = { version = "=0.6.11", features = ["cors", "trace"] }
tracing = "=0.1.44"
tracing-subscriber = { version = "=0.3.23", features = ["env-filter", "fmt"] }
uuid = { version = "=1.29.0", features = ["v4"] }
wait-timeout = "=0.2.1"
zip = { version = "=2.6.1", default-features = false, features = ["deflate"] }

[dev-dependencies]
tempfile = "=3.27.0"
