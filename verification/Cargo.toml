[package]
name = "lsio"
version = "0.1.0"
edition = "2021"
publish = false

[dependencies]
io-uring = "*"
nix = { version = "*", features = ["fs"] }
libc = "*"
anyhow = "*"
crossbeam = "*"
crossbeam-channel = "*"
clap = { version = "*", features = ["derive"] }
indicatif = "*"

[dev-dependencies]
rand = "*"
