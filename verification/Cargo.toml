[package]
name = "my_hacklab"
version = "0.1.0"
edition = "2021"
publish = false

[dependencies]
anyhow = "1"
clap = { version = "4", features = ["derive"] }
lxi = "*"
tracing = "0.1"
tracing-subscriber = "0.3"
