[package]
name = "ttt"
version = "0.1.0"
edition = "2021"
publish = false

[dependencies]
ropey = "1.6"
anyhow = "1"
thiserror = "1"
serde = { version = "1", features = ["derive"] }
ron = "0.8"
url = "2"
winit = "0.29"
glutin = "0.31"
glutin-winit = "0.4"
raw-window-handle = "0.5"
skia-safe = { version = "*", features = ["gl"] }
gl = "0.14"
cocoa = "0.25"
