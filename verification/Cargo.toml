[package]
name = "speedtest"
version = "0.1.0"
edition = "2021"
publish = false

[dependencies]
num-format = "0.4"
chrono = "0.4"
clap = { version = "4", features = ["derive"] }
tokio = { version = "1", features = ["full"] }
