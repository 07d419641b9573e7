[package]
name = "ofx_parser"
version = "0.1.0"
edition = "2021"
publish = false

[dependencies]
quick-xml = "*"
anyhow = "*"
clap = { version = "*", features = ["derive"] }
crossterm = "*"
env_logger = "*"
ratatui = "*"
thiserror = "*"
