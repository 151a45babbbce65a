[package]
name = "clipboard_caoguo"
version = "0.1.0"
edition = "2021"
publish = false

[dependencies]
sha2 = "=0.10.9"
hex = "=0.4.3"
uuid = { version = "=1.29.0", features = ["v4"] }
chrono = "=0.4.45"
rand = "=0.8.8"
hostname = "=0.4.2"
base64 = "=0.22.1"
image = { version = "=0.25.10", default-features = false, features = ["bmp", "dds", "exr", "ff", "gif", "hdr", "ico", "jpeg", "png", "pnm", "qoi", "tga", "tiff", "webp"] }
serde = { version = "=1.0.229", features = ["derive"] }
serde_json = "=1.0.154"
dirs = "=5.0.1"
arboard = "=3.7.0"
axum = "=0.7.9"
tokio = { version = "=1.54.1", features = ["full"] }
tower-http = { version = "=0.5.2", features = ["cors"] }
reqwest = { version = "=0.12.28", default-features = false, features = ["json"] }
mdns-sd = "=0.11.5"
local-ip-address = "=0.6.13"
opener = "=0.7.2"
rusqlite = "=0.32.1"
