[package]
name = "haven_desktop"
version = "0.1.0"
edition = "2021"
publish = false

[dependencies]
url = "2"
sha2 = "0.10"
base64 = "0.22"
serde = { version = "1", features = ["derive"] }
serde_json = "1"
dirs = "*"
which = "*"
once_cell = "1"
parking_lot = "0.12"
tiny-skia = "0.11"
