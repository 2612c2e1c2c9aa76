[package]
name = "rfidlibrs"
version = "0.1.0"
edition = "2021"
publish = false

[dependencies]
tokio-serial = { version = "5.4", default-features = false }
tokio = { version = "1", features = ["io-util"] }
futures = "0.3"
