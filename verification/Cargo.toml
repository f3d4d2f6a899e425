[package]
name = "nixflow"
version = "0.1.0"
edition = "2021"
publish = false

[dependencies]
regex = "*"
serde_json = "*"
serde = { version = "*", features = ["derive"] }
serde_yaml = "*"
clap = { version = "*", features = ["derive"] }
miette = "*"
thiserror = "*"
tempfile = "*"
indicatif = "*"
camino = "*"
