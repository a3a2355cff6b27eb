[package]
name = "favlist_core"
version = "0.1.0"
edition = "2021"
publish = false

[dependencies]
anyhow = "1"
chrono = "0.4"
clap = { version = "4", features = ["derive"] }
console = "0.15"
crossterm = "0.28"
csv = "1"
dirs-next = "2"
encoding_rs = "0.8"
encoding_rs_io = "0.1"
indicatif = "0.17"
regex = "1"
reqwest = { version = "0.12", features = ["blocking", "json"] }
serde = { version = "1", features = ["derive"] }
serde_json = "1"
thiserror = "1"
url = "2"
walkdir = "2"
