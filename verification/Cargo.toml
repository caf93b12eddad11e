[package]
name = "base16_shell"
version = "0.1.0"
edition = "2021"
publish = false

[dependencies]
anyhow = "*"
clap = "*"
git2 = { version = "*", default-features = false }
