[package]
name = "deck"
version = "0.1.0"
edition = "2021"
publish = false

[dependencies]
toml = "0.8"
pulldown-cmark = { version = "0.12", default-features = false }
unicode-width = "0.2"
base64 = "0.22"
image = { version = "0.25", default-features = false, features = ["png", "jpeg", "gif"] }
ratatui = "0.29"
crossterm = "0.28"
syntect = { version = "5", default-features = false, features = ["default-fancy"] }
clap = { version = "4", features = ["derive"] }
serde = { version = "1", features = ["derive"] }
