[package]
name = "chatwork_sweeper"
version = "0.1.0"
edition = "2021"
publish = false

[dependencies]
anyhow = "*"
async-trait = "*"
config = { version = "*", default-features = false, features = ["toml"] }
env_logger = "*"
log = "*"
reqwest = { version = "=0.13.5", default-features = false, features = ["form", "json"] }
serde = { version = "*", features = ["derive"] }
serde_json = "=1.0.151"
thiserror = "*"
tokio = { version = "*", features = ["rt-multi-thread", "macros", "time"] }
