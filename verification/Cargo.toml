[package]
name = "longrunning"
version = "0.1.0"
edition = "2021"
publish = false

[dependencies]
chrono = "0.4"
uuid = { version = "1", features = ["v4"] }
redis = { version = "*", features = ["aio", "tokio-comp"] }
tokio = { version = "1", features = ["time"] }
tonic = "*"
prost = "*"
serde = { version = "1", features = ["derive"] }
serde_json = "1"
thiserror = "*"
