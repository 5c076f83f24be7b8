[package]
name = "yearsplit"
version = "0.1.0"
edition = "2021"
publish = false

[dependencies]
csv = "1.3"
serde_json = { version = "1.0", features = ["preserve_order"] }
