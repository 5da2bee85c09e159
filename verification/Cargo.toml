[package]
name = "mouseutility"
version = "0.1.0"
edition = "2021"
publish = false

[dependencies]
anyhow = "=1.0.104"
hidapi = { version = "=2.6.7", default-features = false, features = ["linux-native-basic-udev"] }
ratatui = "=0.29.0"
serde = { version = "=1.0.229", features = ["derive"] }
thiserror = "=2.0.21"
