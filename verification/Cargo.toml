[package]
name = "yamaf"
version = "0.1.0"
edition = "2021"
publish = false

[dependencies]
axum = { version = "*", features = ["multipart"] }
mime_guess = "*"
rand = "*"
tokio = { version = "*", features = ["rt-multi-thread", "macros", "net", "fs", "io-util"] }
tokio-util = { version = "*", features = ["io"] }
