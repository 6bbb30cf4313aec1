[package]
name = "envfetch"
version = "0.1.0"
edition = "2021"
publish = false

[dependencies]
dotenv-parser = "*"
clap = { version = "*", features = ["derive"] }
colored = "*"
crossterm = "*"
ratatui = "*"
subprocess = "*"
dirs = "*"
