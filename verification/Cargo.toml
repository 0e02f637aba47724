[package]
name = "sspa_console"
version = "0.1.0"
edition = "2021"
publish = false

[dependencies]
crossterm = "0.25"
tui = { version = "0.19", default-features = false, features = ["crossterm"] }
nix = "0.26"
polling = "2"
