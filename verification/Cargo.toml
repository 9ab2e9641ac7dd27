[package]
name = "twig"
version = "0.1.0"
edition = "2021"
publish = false

[dependencies]
snowflaked = "=1.0.4"
uuid = { version = "=1.29.0", features = ["v4"] }
reqwest = { version = "=0.12.28", default-features = false, features = ["json", "rustls-tls"] }
tokio = { version = "=1.54.1", features = ["sync", "rt-multi-thread", "macros", "net", "time"] }
tokio-stream = "=0.1.19"
tonic = "=0.14.6"
tonic-prost = "0.14"
prost = "0.14"
axum = "=0.8.9"
sqlx = { version = "=0.8.6", default-features = false, features = ["sqlite", "runtime-tokio"] }
poise = "=0.6.2"
serde = { version = "=1.0.229", features = ["derive"] }
tracing = "=0.1.44"
tracing-subscriber = { version = "0.3", features = ["env-filter"] }
dotenvy = "0.15"
