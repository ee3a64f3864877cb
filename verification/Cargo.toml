[package]
name = "rewind"
version = "0.1.0"
edition = "2021"
publish = false

[dependencies]
crc32fast = "*"
lofty = "*"
clap = { version = "*", features = ["derive"] }
colored = "*"
chrono = "*"
glob = "*"
