[package]
name = "remoc"
version = "0.1.0"
edition = "2021"
publish = false

[dependencies]
bytes = "1"
futures = "0.3"
serde = { version = "1", features = ["derive"] }
tokio = { version = "1", features = ["sync", "rt", "io-util", "macros"] }
tokio-util = { version = "0.7", features = ["codec"] }
