[package]
name = "viz"
version = "0.1.0"
edition = "2021"
publish = false

[dependencies]
futures-util = { version = "0.3", default-features = false, features = ["std"] }
