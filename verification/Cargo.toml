[package]
name = "smartcard"
version = "0.1.0"
edition = "2021"
publish = false

[dependencies]
log = "0.4"
pcsc = "2"
serde = { version = "1", features = ["derive"] }
serde_json = { version = "1", features = ["preserve_order"] }
tauri = { version = "2", default-features = false, features = ["wry"] }
