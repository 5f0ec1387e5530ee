[package]
name = "ccnp_server"
version = "0.1.0"
edition = "2021"
publish = false

[dependencies]
base64 = "0.21"
openssl = "0.10"
serde = { version = "1", features = ["derive"] }
serde_yaml = "0.9"
