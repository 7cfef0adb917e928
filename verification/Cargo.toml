[package]
name = "spaceship"
version = "0.1.0"
edition = "2021"
publish = false

[dependencies]
clap = { version = "4", features = ["derive"] }
serde_json = "1"
ureq = "3"
rpassword = "7"
