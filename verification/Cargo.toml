[package]
name = "qkd_config_extractor"
version = "0.1.0"
edition = "2021"
publish = false

[dependencies]
log = "0.4"
notify = "*"
tokio = { version = "1", features = ["rt", "sync", "time"] }
