[package]
name = "shaderbar"
version = "0.1.0"
edition = "2021"
publish = false

[dependencies]
regex = "1"
chrono = "0.4"
colored = "2"
dirs = "5"
glob = "0.3"
serde = { version = "1", features = ["derive"] }
serde_json = "1"
tokio = { version = "1", features = ["fs", "process", "macros", "rt-multi-thread"] }
whoami = "1.5"
glib = "0.20"
gtk4 = "0.9"
gtk4-layer-shell = "0.4"
glium = { version = "0.34", default-features = false }
image = { version = "0.25", default-features = false, features = ["png"] }
libloading = "0.8"
system-tray = "0.2"
