[package]
name = "tokio_beat"
version = "0.1.0"
edition = "2021"
publish = false

[dependencies]
chrono = "*"
cron = "*"
uuid = { version = "*", features = ["v4"] }
tokio = { version = "*", features = ["rt", "rt-multi-thread", "time", "sync", "macros"] }
futures = "*"
