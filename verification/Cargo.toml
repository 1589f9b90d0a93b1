[package]
name = "signal-handler"
version = "0.1.0"
edition = "2021"
publish = false

[dependencies]
signal-hook = { version = "=0.3.18", default-features = false }
channel-sender = { version = "=0.4.1", features = ["impl_tokio"] }
tokio = { version = "=1.54.1", default-features = false, features = ["rt", "sync"] }
