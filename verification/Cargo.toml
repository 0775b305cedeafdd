[package]
name = "apex_tux"
version = "0.1.0"
edition = "2021"
publish = false

[dependencies]
embedded-graphics = "*"
tinybmp = "*"
tokio = { version = "1", features = ["rt-multi-thread", "macros", "sync", "time", "signal"] }
futures = "*"
chrono = "*"
config = "*"
anyhow = "*"
