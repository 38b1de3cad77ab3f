[package]
name = "nwv_shell"
version = "0.1.0"
edition = "2021"
publish = false

[dependencies]
crossbeam-channel = "*"
clap = { version = "*", features = ["derive"] }
image = "*"
