[package]
name = "connect_four"
version = "0.1.0"
edition = "2021"
publish = false

[dependencies]
tokio = { version = "1", features = ["sync", "macros", "rt-multi-thread", "time"] }
rand = "0.8"
serenity = { version = "0.10", features = ["collector"] }
futures = "0.3"
log = "0.4"
env_logger = "0.9"
