[package]
name = "zipline"
version = "0.1.0"
edition = "2021"
publish = false

[dependencies]
anyhow = "1"
libc = "0.2"
nix = { version = "0.29", features = ["term", "fs"] }
ratatui = "0.29"
tempfile = "3"
zeroize = "1"
