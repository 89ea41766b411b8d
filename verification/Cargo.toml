[package]
name = "tx-pigeon"
version = "0.1.0"
edition = "2021"
publish = false

[dependencies]
anyhow = "1"
arti-client = { version = "=0.8.3", default-features = false, features = ["tokio", "rustls", "static-sqlite"] }
axum = { version = "0.8", default-features = false, features = ["http1", "json", "macros", "tokio"] }
bitcoin = "=0.32.102"
data-encoding = "=2.11.1"
hex = "=0.4.3"
rand = "=0.9.5"
serde = { version = "1", features = ["derive"] }
serde_json = "1"
sha3 = "=0.10.9"
tokio = { version = "1", features = ["io-util", "macros", "net", "rt-multi-thread", "sync", "time"] }
tor-rtcompat = { version = "=0.8.2", default-features = false, features = ["tokio", "rustls"] }
tower-http = { version = "0.6", default-features = false, features = ["cors"] }
tracing = "0.1"
tracing-subscriber = { version = "0.3", default-features = false, features = ["fmt"] }
