[package]
name = "scoreboard"
version = "0.1.0"
edition = "2021"
publish = false

[dependencies]
toml = "0.8"
serde = { version = "1", features = ["derive"] }
gilrs = "0.11"
notify = "6"
rfd = { version = "0.15", default-features = false }
