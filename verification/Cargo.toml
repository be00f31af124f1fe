[package]
name = "rotating_file"
version = "0.1.0"
edition = "2021"
publish = false

[dependencies]
chrono = "0.4"
flate2 = "1"
futures = "0.3"
tokio = { version = "1", features = ["fs", "io-util", "rt"] }
