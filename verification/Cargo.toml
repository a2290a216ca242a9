[package]
name = "footage_viewer"
version = "0.1.0"
edition = "2021"
publish = false

[dependencies]
anyhow = "=1.0.104"
eframe = { version = "=0.37.0", default-features = false, features = ["default_fonts", "glow", "x11"] }
ffmpeg-next = { version = "=8.1.0", default-features = false, features = ["codec", "format", "software-scaling"] }
image = { version = "=0.25.10", default-features = false, features = ["jpeg", "png"] }
jpeg-encoder = "=0.7.1"
log = "=0.4.35"
rfd = { version = "=0.16.1", default-features = false, features = ["xdg-portal", "tokio"] }
self_update = { version = "=1.3.3", default-features = false, features = ["github", "ureq"] }
trash = "=5.2.9"
windows-sys = { version = "=0.61.2", features = ["Win32_Foundation", "Win32_Security", "Win32_Storage_FileSystem", "Win32_System_IO", "Win32_System_Ioctl"] }
