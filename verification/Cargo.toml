[package]
name = "netplay"
version = "0.1.0"
edition = "2021"
publish = false

[dependencies]
bevy = { version = "=0.18.1", default-features = false, features = ["std", "bevy_log"] }
bevy_defer = { version = "=0.17.0", default-features = false }
bincode-next = "=3.1.1"
rand = "=0.10.3"
tokio = { version = "=1.54.1", features = ["sync"] }
