[package]
name = "build_book"
version = "0.1.0"
edition = "2021"
publish = false

[dependencies]
anyhow = "1"
chrono = { version = "0.4", features = ["serde"] }
clap = { version = "4", features = ["derive"] }
humantime-serde = "1"
log = "0.4"
markdown = "*"
serde = { version = "1", features = ["derive"] }
serde-email = "*"
serde_yaml = "0.9"
simple_logger = "*"
url = { version = "2", features = ["serde"] }

[dev-dependencies]
regex = "1"
