[package]
name = "moq_video"
version = "0.1.0"
edition = "2021"
publish = false

[dependencies]
anyhow = "1"
ashpd = { version = "*", default-features = false, features = ["tokio", "camera"] }
bytes = "1"
libc = "0.2"
ndk = { version = "*", features = ["media", "api-level-26"] }
pipewire = "*"
tracing = "0.1"
v4l = "*"
wgpu = "*"
