[package]
name = "joycon-rumble-bridge"
version = "0.1.0"
edition = "2021"
publish = false

[dependencies]
serde = { version = "=1.0.229", features = ["derive"] }
toml = "=0.8.23"
hidapi = { version = "=2.6.7", default-features = false, features = ["linux-native-basic-udev"] }
iced = { version = "=0.13.1", default-features = false, features = ["tiny-skia", "tokio"] }
