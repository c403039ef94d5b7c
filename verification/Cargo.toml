[package]
name = "dmux"
version = "0.1.0"
edition = "2021"
publish = false

[dependencies]
anyhow = "1"
clap = { version = "3", features = ["cargo"] }
colored = "2"
config = "0.11"
dirs = "4"
grep-cli = "0.1"
serde = { version = "1", features = ["derive"] }
tmux_interface = "0.2"
url = "2"
walkdir = "2"
