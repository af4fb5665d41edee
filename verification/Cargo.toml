[package]
name = "shell"
version = "0.1.0"
edition = "2021"
publish = false

[dependencies]
termion = "*"
unicode-width = "*"
nix = { version = "*", features = ["signal", "process", "fs", "term"] }
signal-hook = "*"
chrono = "*"
users = "*"
dirs = "*"
whoami = "*"
lazy_static = "*"
