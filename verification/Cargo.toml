[package]
name = "stellar_k8s"
version = "0.1.0"
edition = "2021"
publish = false

[dependencies]
lru = "=0.12.5"
prometheus-client = "=0.22.3"
rand = "=0.8.8"
chrono = { version = "=0.4.45", features = ["serde"] }
flate2 = "=1.1.10"
serde = { version = "=1.0.229", features = ["derive"] }
serde_json = "=1.0.154"
serde_yaml = "=0.9.34"
sha2 = "=0.10.9"
hex = "=0.4.3"
ed25519-dalek = { version = "=2.2.0", features = ["rand_core"] }
tokio = { version = "=1.54.1", features = ["rt", "macros", "time", "sync"] }
tracing = "=0.1.44"
once_cell = "=1.21.4"
async-trait = "=0.1.92"
anyhow = "=1.0.104"
regex = "=1.13.1"
base64 = "=0.22.1"
md5 = "=0.7.0"
