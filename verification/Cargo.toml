[package]
name = "remote_mirror"
version = "0.1.0"
edition = "2021"
publish = false

[dependencies]
anyhow = "1"
bincode = "2"
blake3 = "1"
iroh = "*"
rand = "0.9"
tokio = { version = "1", features = ["macros", "rt-multi-thread", "signal"] }
walkdir = "2"
