[package]
name = "sd_rust"
version = "0.1.0"
edition = "2021"
publish = false

[dependencies]
bytes = "0.4"
either = "1"
futures = "0.1"
tokio = "0.1"
tokio-io = "0.1"
