[package]
name = "discord-we"
version = "0.1.0"
edition = "2021"
publish = false

[dependencies]
anyhow = "1"
serenity = "0.12"
tokio = { version = "1", features = ["macros", "rt-multi-thread", "signal", "sync", "time"] }
tracing = "0.1"
tracing-subscriber = { version = "0.3", features = ["env-filter"] }
