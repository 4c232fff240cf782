[package]
name = "substratee_client"
version = "0.1.0"
edition = "2021"
publish = false

[dependencies]
schnorrkel = "0.11"
rsa = "0.9"
rand = "0.8"
hex = "0.4"
base58 = "0.2"
blake2-rfc = "0.2"
serde = { version = "1", features = ["derive"] }
serde_json = "1"

[dev-dependencies]
regex = "1"
