[package]
name = "kestrel"
version = "0.1.0"
edition = "2021"
publish = false

[dependencies]
anyhow = "1"
axum = { version = "0.8", features = ["ws"] }
bytemuck = { version = "1", features = ["derive"] }
clap = { version = "4", features = ["derive"] }
eframe = { version = "*", default-features = false, features = ["wgpu", "default_fonts", "x11"] }
egui = "*"
parking_lot = "0.12"
pollster = "0.4"
serde = { version = "1", features = ["derive"] }
serde_json = "1"
thiserror = "2"
tokio = { version = "1", features = ["rt-multi-thread", "net", "time", "macros", "sync"] }
tower-http = { version = "0.6", features = ["cors"] }
tracing = "0.1"
wgpu = "*"
