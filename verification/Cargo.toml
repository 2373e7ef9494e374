[package]
name = "tscode"
version = "0.1.0"
edition = "2021"
publish = false

[dependencies]
anyhow = "1"
base64 = "0.22"
crossterm = "0.29"
portable-pty = "0.9"
ratatui = "0.30"
serde_json = "1"
syntect = { version = "5", default-features = false, features = ["default-fancy"] }
unicode-width = "0.2"
vt100 = "0.16"
