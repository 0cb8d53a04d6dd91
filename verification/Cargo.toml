[package]
name = "game_tracker"
version = "0.1.0"
edition = "2021"
publish = false

[dependencies]
chrono = "=0.4.45"
serde = { version = "=1.0.229", features = ["derive"] }
serde_json = "=1.0.154"
sysinfo = "=0.30.13"
winapi = { version = "=0.3.9", features = ["winuser", "processthreadsapi", "minwindef", "windef"] }
eframe = { version = "0.29", default-features = false, features = ["default_fonts", "glow", "x11"] }
