[package]
name = "x11_primary_switcher"
version = "0.1.0"
edition = "2021"
publish = false

[dependencies]
regex = "1"
serde_json = "1"
serde = { version = "1", features = ["derive"] }
clap = "4"
notify-rust = "4"
