[package]
name = "pubsub_broker"
version = "0.1.0"
edition = "2021"
publish = false

[dependencies]
serde_json = "1"
regex = "1"
chrono = "0.4"
lazy_static = "1"
