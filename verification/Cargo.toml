[package]
name = "content_exchange"
version = "0.1.0"
edition = "2021"
publish = false

[dependencies]
unsigned-varint = "=0.8.0"
anyhow = "1"
async-trait = "0.1"
clap = { version = "4", default-features = false, features = ["derive", "env", "help", "std", "usage"] }
env_logger = { version = "0.11", default-features = false }
futures = "0.3"
futures-timer = "3"
log = "0.4"
rand = "0.8"
serde = { version = "1", features = ["derive"] }
serde_json = "1"
tokio = { version = "1", features = ["fs", "macros", "rt-multi-thread"] }
