[package]
name = "stage2"
version = "0.1.0"
edition = "2021"
publish = false

[dependencies]
anyhow = "1"
libc = "0.2"
log = "0.4"
nix = { version = "*", default-features = false, features = ["mount", "process", "user"] }

[dev-dependencies]
tempfile = "3"
