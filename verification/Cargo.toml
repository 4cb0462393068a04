[package]
name = "anyn2n"
version = "0.1.0"
edition = "2021"
publish = false

[dependencies]
anyhow = "1"
chrono = "0.4"
image = { version = "0.25", default-features = false, features = ["ico"] }
ipconfig = "0.3"
log = "0.4"
once_cell = "1"
serde = { version = "1", features = ["derive"] }
serde_json = "1"
sysinfo = "0.33"
tokio = { version = "1", features = ["rt-multi-thread", "sync", "time", "process", "macros"] }
uuid = { version = "1", features = ["v4"] }
