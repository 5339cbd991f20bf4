[package]
name = "colmerge"
version = "0.1.0"
edition = "2021"
publish = false

[dependencies]
arrow = "*"
parquet = "*"
clap = { version = "*", features = ["derive"] }
