[package]
name = "mdinclude"
version = "0.1.0"
edition = "2021"
publish = false

[dependencies]
clap = { version = "4", features = ["derive"] }
itertools = "*"
regex = "1"
strum = { version = "*", features = ["derive"] }
