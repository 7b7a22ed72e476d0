[package]
name = "authcore"
version = "0.1.0"
edition = "2021"
publish = false

[dependencies]
argon2 = "=0.5.3"
base64 = "=0.22.1"
chrono = "=0.4.45"
diesel = { version = "=1.4.8", features = ["postgres"] }
ed25519-dalek = "=2.2.0"
getrandom = "=0.2.17"
log = "=0.4.34"
regex = "1"
serde = { version = "=1.0.229", features = ["derive"] }
sha2 = "=0.10.9"
tokio = { version = "=1.54.1", features = ["rt-multi-thread", "macros"] }
tonic = "=0.12.3"
totp-rs = "=5.7.2"
