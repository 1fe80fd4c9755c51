[package]
name = "cowork_supervisor"
version = "0.1.0"
edition = "2021"
publish = false

[dependencies]
libc = "0.2"
parking_lot = "0.12"
serde = { version = "1", features = ["derive"] }
serde_json = "1"
tauri = { version = "2", default-features = false }
thiserror = "1"
tokio = { version = "1", features = ["fs", "io-util", "sync", "time"] }
tracing = "0.1"
