[package]
name = "stark_core"
version = "0.1.0"
edition = "2021"
publish = false

[dependencies]
aes-gcm = "*"
blake3 = "*"
dotenv = "*"
hex = "*"
reqwest = { version = "*", default-features = false, features = ["json"] }
serde = { version = "*", features = ["derive"] }
serde_json = "*"
starknet = "*"
tokio = { version = "*", default-features = false, features = ["rt", "time"] }
url = "*"
