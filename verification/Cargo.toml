[package]
name = "text_session"
version = "0.1.0"
edition = "2021"
publish = false

[dependencies]
chrono = "0.4"
tokio = { version = "1", features = ["fs", "rt", "time"] }
