[package]
name = "myisland"
version = "1.0.0"
edition = "2021"
publish = false

[dependencies]
serde = { version = "1", features = ["derive"] }
serde_json = "1"
serde_yaml = "0.9"
toml = "0.8"
ed25519-dalek = "2"
zip = { version = "2", default-features = false, features = ["deflate"] }
dirs = "5"
log = "0.4"
once_cell = "1"
tempfile = "3"
libloading = "0.8"
reqwest = { version = "0.12", default-features = false, features = ["json"] }
tokio = { version = "1", features = ["rt", "rt-multi-thread"] }
tokio-util = "0.7"
