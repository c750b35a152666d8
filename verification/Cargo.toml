[package]
name = "wireskip_common"
version = "0.1.0"
edition = "2021"
publish = false

[dependencies]
axum = "0.6"
base64 = "0.22"
config = "0.13"
ed25519-dalek = { version = "2", features = ["rand_core"] }
env_logger = "0.10"
hyper = { version = "0.14", features = ["client", "http1", "tcp"] }
log = "0.4"
rand = "0.8"
semver = { version = "1", features = ["serde"] }
serde = { version = "1", features = ["derive"] }
serde_json = "1"
strum = { version = "0.25", features = ["derive"] }
url = { version = "2", features = ["serde"] }
