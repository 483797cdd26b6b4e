[package]
name = "fulgurite"
version = "0.1.0"
edition = "2021"
publish = false

[dependencies]
sha2 = "=0.11.0"
curve25519-dalek = "=5.0.0"
bs58 = "=0.5.1"
base64 = "=0.23.1"
rand = "=0.10.3"
chrono = "=0.4.45"
libloading = "*"
resolve-path = "*"
