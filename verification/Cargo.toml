[package]
name = "flux"
version = "0.1.0"
edition = "2021"
publish = false

[dependencies]
base64 = "=0.22.1"
sha2 = "=0.10.9"
hmac = "=0.12.1"
serde = { version = "=1.0.229", features = ["derive"] }
serde_json = "=1.0.154"
rand = "=0.8.8"
directories = "=5.0.1"
flate2 = "=1.1.10"
chrono = { version = "0.4", default-features = false, features = ["clock", "std"] }
rcgen = "0.13"
tokio = { version = "1", features = ["rt-multi-thread", "net", "io-util", "time", "sync"] }
rustls = { version = "0.23", default-features = false, features = ["ring", "std", "tls12", "logging"] }
tokio-rustls = { version = "0.26", default-features = false, features = ["ring", "tls12", "logging"] }
