[package]
name = "authcore"
version = "0.1.0"
edition = "2021"
publish = false

[dependencies]
sodiumoxide = "=0.2.7"
serde = { version = "=1.0.229", features = ["derive"] }
serde_json = "=1.0.151"
uuid = { version = "=1.27.0", features = ["v4", "serde"] }
reqwest = { version = "=0.11.27", default-features = false, features = ["json"] }
tokio = { version = "=1.53.2", features = ["rt-multi-thread", "macros"] }
time-parse = "*"
