[package]
name = "epaxos"
version = "0.1.0"
edition = "2021"
publish = false

[dependencies]
threads_pool = "*"
serde = { version = "1", features = ["derive"] }
serde_yaml = "0.8"
