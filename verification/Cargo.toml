[package]
name = "cambia_cli"
version = "0.1.0"
edition = "2021"
publish = false

[dependencies]
clap = { version = "*", features = ["derive"] }
hex = "*"
ratatui = "*"
rayon = "*"
tracing = "*"
tracing-subscriber = "*"
walkdir = "*"
