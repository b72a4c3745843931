[package]
name = "textpane"
version = "0.1.0"
edition = "2021"
publish = false

[dependencies]
clap = { version = "*", features = ["derive"] }
crossterm = "*"
ignore = "*"
serde = { version = "*", features = ["derive"] }
thiserror = "*"
toml = "*"
