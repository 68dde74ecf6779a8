[package]
name = "components"
version = "0.1.0"
edition = "2021"
publish = false

[dependencies]
tokio = { version = "1", default-features = false, features = ["sync"] }
tokio-stream = { version = "0.1", default-features = false, features = ["sync"] }
async-graphql = { version = "*", default-features = false }
lazy_static = "1"
