[package]
name = "bluetooth"
version = "0.1.0"
edition = "2021"
publish = false

[dependencies]
bluest = "=0.6.9"
futures-util = "=0.3.34"
log = "=0.4.35"
serde = { version = "=1.0.229", features = ["derive"] }
tokio = { version = "=1.54.1", features = ["macros", "rt-multi-thread", "sync", "time"] }
uuid = "=1.29.0"
