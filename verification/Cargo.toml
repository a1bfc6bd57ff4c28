[package]
name = "async-file-lock"
version = "0.1.0"
edition = "2021"
publish = false

[dependencies]
tokio = { version = "0.2", features = ["fs", "blocking", "rt-core", "io-util"] }
fs3 = "0.5"
futures-lite = "1"

[dev-dependencies]
tempfile = "3"
