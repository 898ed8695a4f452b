[package]
name = "rock_paper_scissors"
version = "0.1.0"
edition = "2021"
publish = false

[dependencies]
sp-core-hashing = "*"
parity-scale-codec = { version = "*", features = ["derive"] }
scale-info = { version = "*", features = ["derive"] }
