[package]
name = "channel_gate"
version = "0.1.0"
edition = "2021"
publish = false

[dependencies]
anyhow = "1"
dotenvy = "*"
env_logger = "*"
hyper = { version = "0.14", features = ["full"] }
log = "0.4"
reqwest = { version = "*", default-features = false }
takecell = "=0.1.1"
teloxide = { version = "=0.17.0", features = ["macros", "ctrlc_handler"] }
tokio = { version = "1", features = ["full"] }
