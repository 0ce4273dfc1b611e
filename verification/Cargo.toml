[package]
name = "bevy_gutzgutz"
version = "0.1.0"
edition = "2021"
publish = false

[dependencies]
image = { version = "0.25", default-features = false, features = ["png"] }
serde = { version = "1", features = ["derive"] }
toml = "0.9"
thiserror = "2"
directories = "6"
bevy = { version = "0.19", default-features = false }
