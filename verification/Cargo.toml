[package]
name = "snake_game"
version = "0.1.0"
edition = "2021"
publish = false

[dependencies]
anyhow = "1"
crossterm = "0.28"
rand = "0.9"
ratatui = "0.29"
