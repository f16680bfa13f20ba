[package]
name = "unremarkable_notes"
version = "0.1.0"
edition = "2021"
publish = false

[dependencies]
serde_json = "=1.0.151"
serde = { version = "=1.0.229", features = ["derive"] }
toml = "=0.8.23"
uuid = { version = "=1.27.0", features = ["serde"] }
clap = { version = "=4.5.61", features = ["derive"] }
