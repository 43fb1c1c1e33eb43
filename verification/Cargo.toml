[package]
name = "inferstore"
version = "0.1.0"
edition = "2021"
publish = false

[dependencies]
anyhow = "*"
blake2 = "*"
config = "*"
digest = "*"
env_logger = "*"
hex = "*"
log = "*"
serde = { version = "*", features = ["derive"] }
serde_json = "*"
serde_with = { version = "*", features = ["base64"] }
urlencoding = "*"
