[package]
name = "siege_render"
version = "0.1.0"
edition = "2021"
publish = false

[dependencies]
dacite = "=0.7.0"
serde = { version = "1", features = ["derive"] }
log = "0.4"
separator = "0.4"
