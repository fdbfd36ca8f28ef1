[package]
name = "pidwait"
version = "0.1.0"
edition = "2021"
publish = false

[dependencies]
nix = { version = "0.26", features = ["poll", "signal", "time", "process"] }
rustix = { version = "*", features = ["process"] }
clap = "*"
