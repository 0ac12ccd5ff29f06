[package]
name = "opendrive"
version = "0.1.0"
edition = "2021"
publish = false

[dependencies]
serde = { version = "1", features = ["derive"] }
serde-xml-rs = "*"
chrono = "0.4"
failure = "0.1"
failure_derive = "0.1"
