[package]
name = "terarria"
version = "0.1.0"
edition = "2021"
publish = false

[dependencies]
bevy = { version = "=0.18.1", default-features = false, features = ["std", "bevy_ui", "bevy_window", "png"] }
rand = "=0.9.5"
