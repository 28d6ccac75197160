[package]
name = "sevi"
version = "0.1.0"
edition = "2021"
publish = false

[dependencies]
crop = "*"
toml = "*"
unicode-width = "*"
clap = { version = "4", features = ["derive"] }
xdg = "*"
serde = { version = "1", features = ["derive"] }
serde_json = "1"
tuirealm = "1"
arboard = "*"
