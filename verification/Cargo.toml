[package]
name = "trade_signal"
version = "0.1.0"
edition = "2021"
publish = false

[dependencies]
anyhow = "*"
chrono = "*"
csv = "*"
rayon = "*"
serde = { version = "*", features = ["derive"] }
serde_json = "*"

[dependencies.clap]
version = "*"
features = ["derive"]
