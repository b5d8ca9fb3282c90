[package]
name = "hop_cli"
version = "0.1.0"
edition = "2021"
publish = false

[dependencies]
anyhow = "*"
async-compression = { version = "*", features = ["tokio", "gzip"] }
async_zip = "*"
clap = { version = "*", features = ["derive"] }
log = "*"
runas = "*"
serde = { version = "*", features = ["derive"] }
serde_json = "*"
tokio = { version = "*", features = ["rt-multi-thread", "macros", "fs", "io-util"] }
tokio-tar = "*"
