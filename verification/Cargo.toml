[package]
name = "turbo_kubb"
version = "0.1.0"
edition = "2021"
publish = false

[dependencies]
serenity = "0.12"
tokio = { version = "1", features = ["rt-multi-thread"] }
