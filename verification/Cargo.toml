[package]
name = "rtx"
version = "0.1.0"
edition = "2021"
publish = false

[dependencies]
clap = { version = "*", features = ["derive"] }
color-eyre = "*"
color-print = "*"
console = "*"
itertools = "*"
once_cell = "*"
