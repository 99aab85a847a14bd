[package]
name = "aetheria"
version = "0.1.0"
edition = "2021"
publish = false

[dependencies]
anyhow = "=1.0.104"
async-std = "=1.13.2"
glam = { version = "=0.24.2", features = ["serde"] }
image = { version = "0.24", default-features = false, features = ["png", "jpeg"] }
postcard = { version = "=1.1.3", features = ["use-std"] }
qoi = "0.4"
serde = { version = "=1.0.229", features = ["derive"] }
sqlx = { version = "=0.7.4", default-features = false, features = ["sqlite", "runtime-async-std"] }
thiserror = "=1.0.69"
tracing = "=0.1.44"
tracing-subscriber = "=0.3.23"
