[package]
name = "rox"
version = "0.1.0"
edition = "2021"

[dependencies]
hash-chain = "*"
hashers = "*"
log = "*"
pretty_env_logger = "*"
tracing = "*"
tracing-log = "*"
tracing-subscriber = { version = "*", features = ["env-filter"] }
