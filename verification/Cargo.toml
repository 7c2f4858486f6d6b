[package]
name = "help_table"
version = "0.1.0"
edition = "2021"
publish = false

[dependencies]
tiktoken-rs = "*"
tokio = { version = "*", features = ["rt-multi-thread", "macros", "time"] }
reqwest = { version = "*", default-features = false }
clap = { version = "*", features = ["derive"] }
colored = "*"
crossterm = "*"
terminal-supports-emoji = "*"
arboard = { version = "*", default-features = false }
