[package]
name = "usirun"
version = "0.1.0"
edition = "2021"
publish = false

[dependencies]
shogi = "*"
toml = "0.5"
clap = { version = "3", features = ["cargo"] }
console = "0.15"
indicatif = "0.17"
csa = "*"
