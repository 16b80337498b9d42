[package]
name = "poemgrid"
version = "0.1.0"
edition = "2021"
publish = false

[dependencies]
unicode-width = "*"
termion = "*"
tui = { version = "*", features = ["termion"] }
