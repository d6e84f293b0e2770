[package]
name = "oauth_core"
version = "0.1.0"
edition = "2021"
publish = false

[dependencies]
serde_json = "1"
urlencoding = "2"
reqwest = { version = "0.12", default-features = false }
warp = "0.3"
tokio = { version = "1", features = ["rt-multi-thread"] }
