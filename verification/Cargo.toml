[package]
name = "temp_voice"
version = "0.1.0"
edition = "2021"
publish = false

[dependencies]
async-trait = "0.1"
serenity = { version = "0.12", default-features = false, features = ["builder", "cache", "client", "gateway", "model", "http", "rustls_backend"] }
tokio = { version = "1", features = ["macros", "rt-multi-thread"] }
