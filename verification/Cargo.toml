[package]
name = "wavy"
version = "0.1.0"
edition = "2021"
publish = false

[dependencies]
clack-plugin = "=0.2.0"
clack-extensions = { version = "=0.2.0", features = ["audio-ports", "note-ports", "clack-plugin"] }
