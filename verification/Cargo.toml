[package]
name = "http_handler"
version = "0.1.0"
edition = "2021"
publish = false

[dependencies]
bytes = "1"
tokio = { version = "1", features = ["io-util", "sync", "rt"] }
http = "1"
http-body = "1"
futures-core = "0.3"
