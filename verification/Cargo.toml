[package]
name = "zervo"
version = "0.1.0"
edition = "2021"
publish = false

[dependencies]
chrono = "*"
url = "*"
serde = { version = "*", features = ["derive"] }
serde_json = "*"
image = "*"
egui = "*"
log = "*"
