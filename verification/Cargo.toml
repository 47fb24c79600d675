[package]
name = "talk-loco-client"
version = "0.1.0"
edition = "2021"
publish = false

[dependencies]
bson = "=2.15.0"
futures = "=0.3.34"
indexmap = "=1.9.3"
serde = { version = "=1.0.229", features = ["derive"] }

[dev-dependencies]
loco-protocol = "=5.0.2"
