[package]
name = "ov_cli"
version = "0.1.0"
edition = "2021"
publish = false

[dependencies]
reqwest = { version = "0.12", default-features = false, features = ["json", "multipart", "rustls-tls"] }
serde = { version = "1", features = ["derive"] }
serde_json = "1"
clap = { version = "4", features = ["derive"] }
tokio = { version = "1", features = ["macros", "rt-multi-thread", "fs"] }
tempfile = "3"
walkdir = "2"
zip = { version = "2", default-features = false, features = ["deflate"] }
indicatif = "0.17"
