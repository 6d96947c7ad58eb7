[package]
name = "logia_rs"
version = "0.1.0"
edition = "2021"
publish = false

[dependencies]
regex = "1"
tui-input = "*"
ratatui = "*"
crossterm = "*"
serde = { version = "1", features = ["derive"] }
toml = "*"
ssh2 = "*"
walkdir = "2"
directories = "*"
color-eyre = "*"

[dev-dependencies]
tempfile = "3"
