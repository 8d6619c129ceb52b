[package]
name = "echat"
version = "0.1.0"
edition = "2021"
publish = false

[dependencies]
base64 = "0.22"
chacha20poly1305 = "0.10"
x25519-dalek = { version = "2", features = ["static_secrets"] }
ed25519-dalek = "2"
sha2 = "0.10"
hkdf = "0.12"
rand = "0.8"
rand_core = { version = "0.6", features = ["getrandom"] }
argon2 = "0.5"
bip39 = "2"
hex = "0.4"
serde = { version = "1", features = ["derive"] }
serde_json = "1"
serde_with = "3"
uuid = { version = "1", features = ["v4", "serde"] }
chrono = { version = "0.4", features = ["serde"] }
thiserror = "1"
anyhow = "1"
tokio = { version = "1", features = ["full"] }
async-trait = "0.1"
lettre = { version = "0.11", default-features = false, features = ["builder", "smtp-transport", "tokio1", "tokio1-native-tls"] }
async-imap = { version = "0.10", default-features = false, features = ["runtime-tokio"] }
native-tls = "0.2"
tokio-native-tls = "0.3"
futures-util = "0.3"
keyring = "3"
dirs = "5"
tracing = "0.1"
