[package]
name = "aether_core"
version = "0.1.0"
edition = "2021"
publish = false

[dependencies]
portable-pty = "=0.8.1"
tauri = { version = "=2.12.5", default-features = false }
