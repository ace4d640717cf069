[package]
name = "cors_proxy"
version = "0.1.0"
edition = "2021"
publish = false

[dependencies]
clap = "*"
clia-tracing-config = "*"
ntex = { version = "*", features = ["tokio"] }
url = "*"
