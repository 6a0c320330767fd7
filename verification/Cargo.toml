[package]
name = "qasm"
version = "0.1.0"
edition = "2021"
publish = false

[dependencies]
capstone = "*"
keystone-engine = "*"
hex = "0.4"
clap = { version = "4", features = ["derive"] }
crossbeam-channel = "0.5"
crossterm = "*"
ratatui = "*"
ratatui-textarea = "*"
arboard = { version = "*", default-features = false }
