[package]
name = "lead"
version = "0.1.0"
edition = "2021"
publish = false

[dependencies]
primes = "*"
uuid = { version = "*", features = ["v4"] }
clap = { version = "*", features = ["derive"] }
log = "*"
log4rs = "*"
miette = { version = "*", features = ["fancy"] }
serde = { version = "*", features = ["derive"] }
serde_json = "*"
thiserror = "*"
