[package]
name = "pcli2"
version = "0.1.0"
edition = "2021"
publish = false

[dependencies]
uuid = "*"
csv = "*"
indicatif = "*"
serde_json = "*"
tokio = { version = "*", features = ["rt-multi-thread", "sync", "time", "macros"] }
