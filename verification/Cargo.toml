[package]
name = "jutsu_audio"
version = "0.1.0"
edition = "2021"
publish = false

[dependencies]
uuid = { version = "1", features = ["v4"] }
sha2 = "0.10"
serde = { version = "1", features = ["derive"] }
serde_json = "1"
hound = "3"
atomic-write-file = "*"

[dev-dependencies]
tempfile = "3"
