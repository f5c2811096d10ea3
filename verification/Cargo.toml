[package]
name = "jtool"
version = "0.1.0"
edition = "2021"
publish = false

[dependencies]
regex = "1"
serde = { version = "1", features = ["derive"] }
serde_json = "1"
tokio = { version = "1", features = ["fs", "io-util", "io-std", "macros", "process", "rt-multi-thread"] }
chrono = "0.4"
colored = "2"
