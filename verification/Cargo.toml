[package]
name = "peakrunner"
version = "0.1.0"
edition = "2021"
publish = false

[dependencies]
sha2 = "0.10"
miniz_oxide = "0.8"
getrandom = "0.3"
serde = { version = "1", features = ["derive"] }
serde_json = "1"
glam = { version = "0.29", features = ["serde"] }
log = "0.4"
tokio = { version = "1", features = ["rt-multi-thread", "macros", "net", "time", "sync"] }
axum = "0.8"
