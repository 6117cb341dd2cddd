[package]
name = "vvcenc"
version = "0.1.0"
edition = "2021"
publish = false

[dependencies]
clap = { version = "=3.2.25", features = ["derive"] }
colored = "=2.2.0"

[dev-dependencies]
rand = "=0.8.8"
