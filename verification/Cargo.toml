[package]
name = "epoch_db"
version = "0.1.0"
edition = "2021"
publish = false

[dependencies]
sled = "0.34"
zip = "2"
chrono = "0.4"

[dev-dependencies]
tempfile = "3"
