[package]
name = "wuwa_fps_unlocker"
version = "0.1.0"
edition = "2021"
publish = false

[dependencies]
serde_json = { version = "1", features = ["preserve_order", "arbitrary_precision"] }
rusqlite = { version = "*", features = ["bundled"] }
inquire = "*"
sysinfo = "0.30"
tinyfiledialogs = "*"
glfw = "*"
