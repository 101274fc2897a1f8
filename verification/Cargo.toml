[package]
name = "term_video"
version = "0.1.0"
edition = "2021"
publish = false

[dependencies]
clap = { version = "4", features = ["derive"] }
image = "0.24"
term_size = "0.3"
walkdir = "2"
