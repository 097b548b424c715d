[package]
name = "nexlint"
version = "0.1.0"
edition = "2021"
publish = false

[dependencies]
anyhow = "*"
camino = "*"
chrono = "*"
determinator = "*"
env_logger = "*"
globset = "*"
guppy = "*"
hex = "*"
log = "*"
regex = "*"
serde = { version = "*", features = ["derive"] }
structopt = "*"
