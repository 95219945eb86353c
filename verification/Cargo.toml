[package]
name = "argoncrypt"
version = "0.1.0"
edition = "2021"
publish = false

[dependencies]
anyhow = "1"
chacha20poly1305 = { version = "0.9", features = ["stream"] }
rand = "0.8"
rpassword = "7"
rust-argon2 = "1.0"
walkdir = "2"
zeroize = "1"
