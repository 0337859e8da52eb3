[package]
name = "cratery"
version = "0.1.0"
edition = "2021"
publish = false

[dependencies]
urlencoding = "=2.1.3"
sha2 = "=0.10.9"
axum = "=0.7.9"
cookie = "=0.18.2"
futures = "=0.3.34"
log = "=0.4.34"
serde = { version = "=1.0.229", features = ["derive"] }
serde_json = "=1.0.154"
sqlx = { version = "=0.8.6", default-features = false, features = ["sqlite", "runtime-tokio"] }
tokio = { version = "=1.54.1", features = ["fs", "rt-multi-thread", "sync", "macros"] }
tokio-util = { version = "=0.7.20", features = ["io"] }
