[package]
name = "oogit"
version = "0.2.2"
edition = "2021"
publish = false

[dependencies]
anyhow = "1"
clap = { version = "4", features = ["derive"] }
git2 = "*"
walkdir = "2"
zip = { version = "*", default-features = false, features = ["deflate"] }
