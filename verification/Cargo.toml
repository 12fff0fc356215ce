[package]
name = "total_viewsheds"
version = "0.1.0"
edition = "2021"
publish = false

[dependencies]
clap = { version = "*", features = ["derive"] }
dirs = "*"
geo = "*"
image = "*"
