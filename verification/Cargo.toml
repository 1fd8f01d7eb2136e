[package]
name = "fsbrowse"
version = "0.1.0"
edition = "2021"
publish = false

[dependencies]
chrono = "*"
humansize = "*"
clap = { version = "*", features = ["derive"] }
crossterm = "*"
ratatui = "*"
