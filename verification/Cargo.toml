[package]
name = "oblivion"
version = "0.1.0"
edition = "2021"
publish = false

[dependencies]
anyhow = "1"
clap = { version = "4", features = ["derive", "env"] }
tokio = { version = "1", features = ["rt", "net", "io-util", "sync", "time", "macros"] }
parking_lot = "0.12"
portable-pty = "*"
tracing = "0.1"
tracing-subscriber = { version = "0.3", features = ["env-filter", "fmt"] }
tracing-appender = "0.2"
directories = "*"
env_logger = "*"
log = "0.4"
