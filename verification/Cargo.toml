[package]
name = "subimg"
version = "0.1.0"
edition = "2021"
publish = false

[dependencies]
anyhow = "1"
clap = { version = "4", features = ["cargo"] }
image = "0.24"
