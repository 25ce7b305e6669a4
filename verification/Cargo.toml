[package]
name = "spektra"
version = "0.1.0"
edition = "2021"
publish = false

[dependencies]
argon2 = "*"
chrono = "0.4"
clap = { version = "4", features = ["derive"] }
hex = "0.4"
prost = "*"
rand = "*"
serde = { version = "1", features = ["derive"] }
serde_json = "1"
