[package]
name = "rsmatrix"
version = "0.1.0"
edition = "2021"
publish = false

[dependencies]
rand = "0.8"
tui = "0.19"
crossterm = "0.25"
clap = { version = "4", features = ["derive"] }
anyhow = "1"
attohttpc = { version = "*", features = ["json"] }
serde = { version = "1", features = ["derive"] }
