[package]
name = "bqdrift"
version = "0.1.0"
edition = "2021"
publish = false

[dependencies]
base64 = "0.22"
chrono = { version = "0.4", features = ["serde"] }
flate2 = "1"
futures = "0.3"
glob = "0.3"
rayon = "1"
regex = "1"
serde = { version = "1", features = ["derive"] }
serde_yaml = "0.9"
sha2 = "0.10"
thiserror = "1"
tracing = "0.1"
