[package]
name = "wssrock"
version = "0.1.0"
edition = "2021"
publish = false

[dependencies]
json = "*"
uuid = { version = "*", features = ["v4"] }
anyhow = "*"
clap = { version = "*", features = ["derive"] }
futures = "*"
tokio = { version = "*", features = ["rt-multi-thread", "macros", "net", "io-util"] }
tokio-tungstenite = "*"
tracing = "*"
tracing-subscriber = "*"
