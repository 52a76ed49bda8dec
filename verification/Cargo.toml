[package]
name = "train_db"
version = "0.1.0"
edition = "2021"
publish = false

[dependencies]
anyhow = "1"
async-trait = "0.1"
btleplug = "0.11"
chrono = { version = "0.4", features = ["serde"] }
clap = { version = "4", features = ["derive"] }
fastrand = "2"
futures = "0.3"
hex = "0.4"
libp2p = { version = "0.53", default-features = false, features = ["ed25519"] }
rocksdb = "0.22"
serde = { version = "1", features = ["derive"] }
serde_json = "1"
tokio = { version = "1", features = ["full"] }
tracing = "0.1"
tracing-subscriber = { version = "0.3", features = ["env-filter"] }
warp = "0.3"

[dev-dependencies]
tempfile = "3"
