[package]
name = "tetris_bot"
version = "0.1.0"
edition = "2021"
publish = false

[dependencies]
rand = "0.8"
itertools = "*"
serde = { version = "*", features = ["derive"] }
serde_json = "*"
num_cpus = "*"
termion = "*"
