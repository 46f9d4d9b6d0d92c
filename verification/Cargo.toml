[package]
name = "fhe_aes"
version = "0.1.0"
edition = "2021"
publish = false

[dependencies]
tfhe = { version = "=0.6.4", default-features = false, features = ["integer", "x86_64-unix"] }
clap = { version = "=4.6.7", features = ["derive"] }
hex = "=0.4.3"
