[package]
name = "sourcelink"
version = "0.1.0"
edition = "2021"
publish = false

[dependencies]
anyhow = "1"
axum = "0.7"
dotenvy = "0.15"
envy = "0.4"
log = { version = "0.4", features = ["kv", "kv_serde"] }
nanoid = "0.4"
serde = { version = "1", features = ["derive"] }
simple_logger = "*"
sqlx = { version = "0.7", default-features = false, features = ["sqlite", "runtime-tokio", "macros"] }
structured-logger = "1"
thiserror = "1"
tokio = { version = "1", features = ["rt-multi-thread", "macros", "net", "io-std"] }
