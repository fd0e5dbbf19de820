[package]
name = "number_wall_renderer"
version = "0.1.0"
edition = "2021"
publish = false

[dependencies]
image = { version = "0.25.10", default-features = false, features = ["png"] }
json = "0.12.4"
