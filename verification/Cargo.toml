[package]
name = "hello"
version = "0.1.0"
edition = "2021"
publish = false

[dependencies]
cancellable-io = "*"
env_logger = "*"
log = "0.4"
serde = { version = "1", features = ["derive"] }
serde_derive = "1"
signal-hook = "0.3"
toml = "*"
