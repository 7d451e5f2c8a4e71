[package]
name = "read_ahtx0_rs"
version = "0.1.0"
edition = "2021"
publish = false

[dependencies]
embedded-hal = "1"
linux-embedded-hal = { version = "0.4", default-features = false, features = ["i2c"] }
thiserror = "1"
