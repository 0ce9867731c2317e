[package]
name = "sensor_poll"
version = "0.1.0"
edition = "2021"
publish = false

[dependencies]
chrono = "0.4"
reqwest = { version = "0.12", default-features = false, features = ["blocking", "multipart"] }
tracing = "0.1"
tracing-subscriber = "0.3"
