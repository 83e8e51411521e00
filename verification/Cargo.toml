[package]
name = "rl_state"
version = "0.1.0"
edition = "2021"
publish = false

[dependencies]
base64 = "0.22"
tokio = { version = "1", features = ["fs", "io-util", "macros", "rt-multi-thread"] }
