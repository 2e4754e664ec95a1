[package]
name = "massa_api"
version = "0.1.0"
edition = "2021"
publish = false

[dependencies]
jsonrpc-core = "18"
tokio = { version = "1", default-features = false, features = ["macros"] }
