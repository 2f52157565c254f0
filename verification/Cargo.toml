[package]
name = "roggy"
version = "0.1.0"
edition = "2021"
publish = false

[dependencies]
bevy = { version = "0.18", default-features = false }
serde = { version = "1", features = ["derive"] }
serde_json = "1"
postcard = { version = "1", features = ["alloc"] }
tokio = { version = "1", features = ["rt-multi-thread", "sync", "io-util", "macros", "time"] }
quinn = "0.11"
rustls = { version = "0.23", default-features = false, features = ["ring", "std"] }
rcgen = "0.13"
dashmap = "6"
dirs = "6"
rand = "0.8"
