[package]
name = "hearthcoach_harness"
version = "0.4.2"
edition = "2021"
publish = false

[dependencies]
serde = { version = "1", features = ["derive"] }
serde_json = "1"
