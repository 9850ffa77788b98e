[package]
name = "termspy"
version = "0.1.0"
edition = "2021"
publish = false

[dependencies]
futures = "*"
libc = "*"
termion = "*"

[dependencies.nix]
version = "*"
features = ["term", "process", "ioctl", "fs"]
