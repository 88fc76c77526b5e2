[package]
name = "uid_relation_system"
version = "0.1.0"
edition = "2021"
publish = false

[dependencies]
env_logger = "0.11"
lazy_static = "1"
log = "0.4"
serde = { version = "1", features = ["derive"] }
thiserror = "1"
