[package]
name = "image_export"
version = "0.1.0"
edition = "2021"
publish = false

[dependencies]
base64 = "=0.22.1"
log = "0.4"
tauri = { version = "2", default-features = false }
tauri-plugin-log = { version = "2", default-features = false }
