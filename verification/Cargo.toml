[package]
name = "modsync"
version = "0.1.0"
edition = "2021"
publish = false

[dependencies]
zip = { version = "*", default-features = false, features = ["deflate"] }
git2 = "*"
reqwest = { version = "*", default-features = false, features = ["rustls-tls", "stream"] }
tokio = { version = "*", features = ["rt-multi-thread", "macros"] }
futures-util = "*"
walkdir = "*"
indicatif = "*"
crossterm = "*"
