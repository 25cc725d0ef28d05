[package]
name = "typingspeed"
version = "0.1.0"
edition = "2021"
publish = false

[dependencies]
gamesense = "=0.1.2"
serde_json = "=1.0.154"
trayicon = "=0.4.1"
winit = "=0.25.0"
