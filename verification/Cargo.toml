[package]
name = "bel"
version = "0.1.0"
edition = "2021"
publish = false

[dependencies]
anyhow = "1"
env_logger = "0.9"
rustyline = "9"
thiserror = "1"
