[package]
name = "cypheria"
version = "0.1.0"
edition = "2021"
publish = false

[dependencies]
aes-gcm = "0.10"
argon2 = "0.5"
sha2 = "0.10"
hmac = "0.12"
subtle = "2"
rand = "0.8"
pqcrypto-kyber = "0.8"
pqcrypto-traits = "0.3"
uuid = { version = "1", features = ["v4"] }
chrono = { version = "0.4", features = ["serde"] }
serde = { version = "1", features = ["derive"] }
serde_json = "1"
secrecy = "0.8"
zeroize = { version = "1", features = ["derive"] }
bincode = "1"
thiserror = "1"
tokio = { version = "1", features = ["full"] }
dirs = "5"
arboard = { version = "3", default-features = false }
