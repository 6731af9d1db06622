[package]
name = "pallet-nft"
version = "0.1.0"
edition = "2021"
publish = false

[dependencies]
frame-support = "*"
frame-system = "*"
parity-scale-codec = { version = "3", features = ["derive"] }
scale-info = { version = "2", features = ["derive"] }
sp-std = "*"
