[package]
name = "gjk"
version = "0.1.0"
edition = "2021"
publish = false

[dependencies]
glam = "0.24"
rand = "0.8"
serde_json = "1"
