[package]
name = "body_problem"
version = "0.1.0"
edition = "2021"
publish = false

[dependencies]
async-std = "*"
futures = "*"
nalgebra = { version = "*", features = ["serde-serialize"] }
serde = { version = "*", features = ["derive"] }
web-time = "*"
yew-agent = "*"
