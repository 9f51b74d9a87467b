[package]
name = "nautilus"
version = "0.1.0"
edition = "2021"
publish = false

[dependencies]
byteorder = "1"
chrono = "0.4"
clap = "4"
nix = "0.24"
ron = "0.8"
serde = { version = "1", features = ["derive"] }
tempfile = "3"
timeout-readwrite = "0.3"
