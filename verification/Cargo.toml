[package]
name = "solc_select"
version = "0.2.0"
edition = "2021"
publish = false

[dependencies]
anyhow = "1"
clap = { version = "4", features = ["derive"] }
dirs = "*"
serde = { version = "1", features = ["derive"] }
sys-info = "0.9"
ureq = { version = "2", features = ["json"] }
