[package]
name = "kiota"
version = "0.1.0"
edition = "2021"
publish = false

[dependencies]
url = "2"
uuid = "1"
chrono = { version = "0.4", default-features = false, features = ["std"] }
serde_json = "1"
async-trait = "0.1"
reqwest = { version = "0.12", default-features = false }
