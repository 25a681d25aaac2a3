[package]
name = "wayeyes"
version = "0.1.0"
edition = "2021"
publish = false

[dependencies]
anyhow = "1"
async-std = { version = "1", features = ["attributes"] }
ctrlc-async = "3"
futures-util = "0.3"
swayipc-async = "2"
