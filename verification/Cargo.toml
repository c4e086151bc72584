[package]
name = "term_ssh_manager"
version = "0.1.0"
edition = "2021"
publish = false

[dependencies]
ratatui = "0.28"
crossterm = "0.28"
clap = { version = "4", features = ["derive"] }
serde = { version = "1", features = ["derive"] }
serde_json = "1"
directories = "5"
portable-pty = "*"
vt100 = "*"
