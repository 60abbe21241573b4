[package]
name = "rodan_sse"
version = "0.1.0"
edition = "2021"
publish = false

[dependencies]
actix-cors = "*"
actix-web = "*"
arc-swap = "*"
chrono = "*"
env_logger = "*"
futures-util = "*"
humantime-serde = "*"
jsonwebtoken = "*"
once_cell = "*"
serde = { version = "*", features = ["derive"] }
serde_json = "*"
sha2 = "*"
tokio = { version = "*", features = ["macros", "rt-multi-thread", "fs", "io-util", "signal", "sync", "time"] }
toml = "*"
