[package]
name = "fxproxy"
version = "0.1.0"
edition = "2021"
publish = false

[dependencies]
regex = "1"
url = "2"
serenity = "0.12"
tokio = { version = "1", features = ["macros", "rt-multi-thread"] }
