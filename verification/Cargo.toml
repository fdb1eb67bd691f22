[package]
name = "massa_bootstrap"
version = "0.1.0"
edition = "2021"
publish = false

[dependencies]
blake3 = { version = "=1.8.7", default-features = false, features = ["pure"] }
ed25519-dalek = "=2.2.0"
rand = "=0.8.8"
bs58 = { version = "0.5", features = ["check"] }
tokio = { version = "=1.54.1", features = ["net", "time", "io-util", "rt"] }
async-speed-limit = { version = "=0.4.2", features = ["tokio"] }
parking_lot = "=0.12.5"
tracing = "=0.1.44"
serde = { version = "=1.0.229", features = ["derive"] }
