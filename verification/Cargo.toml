[package]
name = "searchkit"
version = "0.1.0"
edition = "2021"
publish = false

[dependencies]
tokio = { version = "=1.54.1", features = ["fs", "io-util", "rt", "macros"] }
serde = { version = "=1.0.229", features = ["derive"] }
serde_json = "=1.0.154"
bincode = "=1.3.3"
chrono = "=0.4.45"
async-trait = "=0.1.92"
redis = { version = "*", features = ["tokio-comp"] }
