[package]
name = "uap"
version = "0.1.0"
edition = "2021"
publish = false

[dependencies]
ctrlc = "3"
rand = "0.9"
tokio = { version = "1", features = ["io-std", "io-util", "macros", "net", "rt-multi-thread", "sync", "time"] }
