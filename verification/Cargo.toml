[package]
name = "leek"
version = "0.1.0"
edition = "2021"
publish = false

[dependencies]
anyhow = "1"
crossterm = "*"
directories = "*"
ratatui = "*"
rodio = "0.20"
