[package]
name = "offline_engine"
version = "0.1.0"
edition = "2021"
publish = false

[dependencies]
md5 = "0.7"
hex = "0.4"
image = { version = "*", default-features = false, features = ["png", "jpeg"] }
encoding_rs = "0.8"
chrono = "0.4"
tokio = { version = "1", features = ["rt-multi-thread", "macros", "time", "fs", "sync"] }
reqwest = { version = "0.12", default-features = false }
anyhow = "1"
base64 = "0.22"
