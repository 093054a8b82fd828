[package]
name = "themisfuzzer"
version = "0.1.0"
edition = "2021"
publish = false

[dependencies]
bytes = "1"
rand = "0.8"
futures-util = "0.3"
tokio = { version = "1", features = ["rt", "rt-multi-thread", "macros"] }
once_cell = "1"
