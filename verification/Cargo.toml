[package]
name = "xiron"
version = "0.1.0"
edition = "2021"
publish = false

[dependencies]
rand = "0.8"
prost = "*"
prost-types = "*"
serde = { version = "*", features = ["derive"] }
serde_yaml = "*"
crossbeam = "*"
tungstenite = "*"
