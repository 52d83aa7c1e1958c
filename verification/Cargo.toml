[package]
name = "carcetti"
version = "0.1.0"
edition = "2021"
publish = false

[dependencies]
anyhow = "=1.0.104"
bytemuck = "=1.25.2"
camino = "=1.2.6"
crossbeam-channel = "=0.5.17"
crossterm = { version = "=0.23.2", features = ["event-stream"] }
dirs = "=4.0.0"
fastrand = "=1.9.0"
ffmpeg-next = "=4.4.0"
getrandom = "=0.2.17"
image = { version = "=0.24.9", default-features = false }
quick-xml = "=0.23.1"
ryu = "=1.0.23"
tokio = { version = "=1.54.1", features = ["full"] }
tokio-stream = "=0.1.19"
tracing = "=0.1.44"
tui = "=0.18.0"
vsprintf = "=2.0.0"

[dev-dependencies]
ordered-float = "3"
