[package]
name = "accounts_state"
version = "0.1.0"
edition = "2021"
publish = false

[dependencies]
anyhow = "1"
csv-async = { version = "1", features = ["tokio"] }
futures = "0.3"
rust_decimal = "1"
serde = { version = "1", features = ["derive"] }
thiserror = "1"
tokio = { version = "1", features = ["fs", "io-std", "io-util", "macros", "rt-multi-thread", "sync"] }
tokio-stream = "0.1"
