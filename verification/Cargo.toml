[package]
name = "fuo"
version = "0.1.0"
edition = "2021"
publish = false

[dependencies]
scraper = "*"
reqwest = { version = "0.12", default-features = false, features = ["cookies", "rustls-tls"] }
tokio = { version = "1", features = ["macros", "rt-multi-thread", "fs", "io-util", "time"] }
clap = { version = "4", features = ["derive"] }
rpassword = "7"
keyring = "3"
thiserror = "2"
anyhow = "1"
