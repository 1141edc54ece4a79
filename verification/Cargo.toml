[package]
name = "krdx"
version = "0.1.0"
edition = "2021"
publish = false

[dependencies]
sha2 = "0.10"
ripemd = "0.1"
bs58 = "0.5"
base64 = "0.22"
ring = "0.17"
chrono = "0.4"
ed25519-dalek = "1.0.1"
rand = "0.7"
serde = { version = "1", features = ["derive"] }
