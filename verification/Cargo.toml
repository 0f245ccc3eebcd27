[package]
name = "alterion-encrypt"
version = "0.1.0"
edition = "2021"
publish = false

[dependencies]
actix-http = { version = "3", default-features = false }
actix-web = { version = "4", default-features = false }
alterion-ecdh = "*"
futures-util = "0.3"
hex = "0.4"
redis = { version = "0.27", default-features = false, features = ["aio", "tokio-comp", "connection-manager"] }
serde_bytes = "0.11"
tokio = { version = "1", features = ["sync"] }
tracing = "0.1"
zeroize = { version = "1", features = ["derive"] }
