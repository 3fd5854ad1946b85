[package]
name = "niwl"
version = "0.1.0"
edition = "2021"
publish = false

[dependencies]
fuzzytags = "=0.6.0"
curve25519-dalek = "=3.2.1"
sha3 = "=0.9.1"
secretbox = "=0.1.3"
rand = "=0.7.3"
base32 = "=0.5.1"
chrono = "=0.4.45"
serde = { version = "=1.0.229", features = ["derive"] }
serde_json = "=1.0.151"
bincode = "=1.3.3"
reqwest = { version = "=0.13.5", default-features = false, features = ["blocking", "json"] }
