[package]
name = "elisym_cli"
version = "0.1.0"
edition = "2021"
publish = false

[dependencies]
aes-gcm = "=0.10.3"
argon2 = "=0.5.3"
bs58 = "=0.5.1"
getrandom = "=0.2.17"
solana-sdk = "=2.3.1"
dirs = "=5.0.1"
chrono = "=0.4.45"
serde = { version = "=1.0.229", features = ["derive"] }
toml = "=0.8.23"
tokio = { version = "=1.54.1", features = ["full"] }
ratatui = "=0.29.0"

[dev-dependencies]
serde_json = "=1.0.154"
