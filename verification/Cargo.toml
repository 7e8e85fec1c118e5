[package]
name = "dlogcover"
version = "0.1.0"
edition = "2021"
publish = false

[dependencies]
clang-sys = { version = "*", features = ["runtime"] }
clap = { version = "*", features = ["derive"] }
env_logger = "*"
log = "*"
rand = "*"
regex = "*"
serde = { version = "*", features = ["derive"] }
serde_json = "*"
walkdir = "*"
