[package]
name = "identity_core"
version = "0.1.0"
edition = "2021"
publish = false

[dependencies]
argon2 = "0.5"
rand = "0.8"
cuid = "1"

[dev-dependencies]
serde_json = "1"
