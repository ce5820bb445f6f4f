[package]
name = "dirnav"
version = "0.1.0"
edition = "2021"
publish = false

[dependencies]
clap = { version = "4", features = ["derive"] }
crossterm = "*"
dirs = "*"
strip-ansi-escapes = "*"
