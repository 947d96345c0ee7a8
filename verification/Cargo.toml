[package]
name = "moxnotify"
version = "0.1.0"
edition = "2021"
publish = false

[dependencies]
url = "=2.5.8"
serde = { version = "=1.0.229", features = ["derive"] }
serde_json = "=1.0.154"
clap = { version = "=4.6.7", features = ["derive"] }
zbus = "=5.19.0"
tokio = { version = "=1.54.1", features = ["macros", "rt-multi-thread"] }
regex = "1"
