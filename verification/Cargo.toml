[package]
name = "mpc"
version = "0.1.0"
edition = "2021"
publish = false

[dependencies]
anyhow = "1"
axum = { version = "=0.8.9", features = ["ws"] }
cggmp24 = { version = "=0.7.0-alpha.3", features = ["curve-secp256k1"] }
cggmp24-keygen = "=0.7.0-alpha.3"
clap = { version = "4", default-features = false, features = ["std", "derive", "help", "usage", "error-context"] }
futures = "0.3"
hex = "=0.4.3"
http = "=1.5.0"
k256 = { version = "=0.13.4", features = ["ecdsa"] }
paillier-zk = { version = "=0.7.0-alpha.3", default-features = false }
rand = "0.8"
serde = { version = "1", features = ["derive"] }
serde_json = "=1.0.154"
sha2 = "=0.10.9"
signature = "2"
thiserror = "2"
tokio = { version = "1", features = ["macros", "rt-multi-thread", "net", "signal", "sync"] }
tokio-tungstenite = "0.29"
tower-http = { version = "0.6", default-features = false, features = ["cors"] }
tracing = "0.1"
tracing-subscriber = { version = "0.3", features = ["env-filter", "chrono"] }
tronic = { version = "=0.3.5", default-features = false }
uuid = { version = "=1.29.0", features = ["serde"] }
