[package]
name = "random_spells"
version = "0.1.0"
edition = "2021"
publish = false

[dependencies]
lru_time_cache = "0.11"
rand = "0.8"
clap = { version = "3", features = ["derive"] }
serde = { version = "1", features = ["derive"] }
serde_json = "1"
reqwest = { version = "0.11", default-features = false, features = ["json"] }
tokio = { version = "1", features = ["rt", "rt-multi-thread", "macros"] }
futures = "0.3"
graphql_client = "*"
config = "*"
log = "0.4"
env_logger = "*"
