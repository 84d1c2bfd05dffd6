[package]
name = "sabi_wallet"
version = "0.1.0"
edition = "2021"
publish = false

[dependencies]
anyhow = "1"
argon2 = "=0.5.3"
async-trait = "0.1"
axum = "0.7"
chrono = { version = "0.4", features = ["serde"] }
clap = { version = "4", features = ["derive"] }
dotenvy = "0.15"
jsonwebtoken = "9"
nostr-sdk = { version = "=0.44.1", features = ["nip04"] }
phonenumber = "=0.3.10"
rand = "=0.8.8"
redis = { version = "0.25", default-features = false, features = ["tokio-comp", "aio"] }
reqwest = { version = "0.12", default-features = false, features = ["rustls-tls"] }
secrecy = "=0.8.0"
sentry = { version = "0.34", default-features = false, features = ["reqwest", "rustls"] }
serde = { version = "1", features = ["derive"] }
serde_json = "1"
sqlx = { version = "0.7", default-features = false, features = ["postgres", "runtime-tokio", "uuid", "chrono", "migrate", "json"] }
thiserror = "1"
tokio = { version = "1", features = ["full"] }
tower = "0.4"
tower-http = { version = "0.5", features = ["cors", "trace", "request-id", "validate-request"] }
tracing = "0.1"
tracing-subscriber = { version = "0.3", default-features = false, features = ["env-filter", "fmt", "json", "std"] }
uuid = { version = "=1.29.0", features = ["v4"] }
validator = { version = "0.16", features = ["derive"] }
