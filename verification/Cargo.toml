[package]
name = "rs-relay"
version = "0.1.0"
edition = "2021"
publish = false

[dependencies]
async-std = { version = "1.12", features = ["attributes"] }
dotenv = "0.15"
envy = "0.4"
futures = "0.3"
hex = "0.4"
libp2p = { version = "0.53", features = ["async-std", "dns", "ed25519", "identify", "macros", "noise", "ping", "relay", "tcp", "websocket", "yamux"] }
serde = { version = "1", features = ["derive"] }
tracing-subscriber = { version = "0.3", features = ["env-filter"] }
