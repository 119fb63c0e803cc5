[package]
name = "data_generation"
version = "0.1.0"
edition = "2021"
publish = false

[dependencies]
chrono = { version = "0.4", default-features = false, features = ["std", "clock"] }
csv = "1"
rand = "0.8"
