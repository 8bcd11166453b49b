[package]
name = "video_tool"
version = "0.2.0"
edition = "2021"
publish = false

[dependencies]
arboard = { version = "=3.7.0", default-features = false }
dirs = "=6.0.0"
eframe = { version = "=0.29.1", default-features = false, features = ["default_fonts", "glow", "x11"] }
regex = "=1.13.1"
rfd = { version = "0.15", default-features = false, features = ["tokio", "xdg-portal"] }
serde = { version = "=1.0.229", features = ["derive"] }
serde_json = "=1.0.154"
sha2 = "=0.10.9"
ureq = { version = "=2.12.1", features = ["json"] }
zip = { version = "=2.6.1", default-features = false, features = ["deflate"] }
