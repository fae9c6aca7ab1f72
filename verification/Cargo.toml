[package]
name = "palcommand"
version = "0.1.0"
edition = "2021"
publish = false

[dependencies]
flate2 = "1"
tar = "0.4"
serde = { version = "1", features = ["derive"] }
serde_json = "1"
chrono = "0.4"
tokio = { version = "1", features = ["net", "io-util", "time", "process", "rt", "macros"] }
reqwest = { version = "0.12", default-features = false, features = ["json"] }
keyring = { version = "3", features = ["windows-native"] }
