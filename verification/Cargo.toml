[package]
name = "firefox_launcher"
version = "0.1.0"
edition = "2021"
publish = false

[dependencies]
libc = "0.2"
nix = { version = "0.29", features = ["fs", "process", "signal"] }
procfs = { version = "0.12", default-features = false }
rust-ini = "0.21"
rustyline = "14"
serde = { version = "1", features = ["derive"] }
serde_json = "1"
x11rb = "0.13"
xdg = "2"
