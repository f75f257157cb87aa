[package]
name = "webserver"
version = "0.1.0"
edition = "2021"
publish = false

[dependencies]
chrono = "0.4"
clap = "2"
colored = "2"
futures = "0.3"
hyper = { version = "0.14", features = ["full"] }
reqwest = { version = "0.11", default-features = false }
tokio = { version = "1", features = ["full"] }
