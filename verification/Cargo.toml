[package]
name = "cipherpay"
version = "0.1.0"
edition = "2021"
publish = false

[dependencies]
actix-cors = "0.7"
actix-governor = "*"
actix-web = { version = "4", default-features = false, features = ["macros", "cookies"] }
aes-gcm = "=0.10.3"
anyhow = "1"
base64 = "=0.22.1"
chrono = "=0.4.45"
dotenvy = "0.15"
futures = "0.3"
hex = "=0.4.3"
hmac = "=0.12.1"
image = { version = "=0.25.10", default-features = false, features = ["png"] }
orchard = { version = "=0.16.0", default-features = false }
qrcode = { version = "=0.14.1", default-features = false, features = ["image"] }
rand = "=0.8.8"
reqwest = { version = "0.12", default-features = false, features = ["rustls-tls", "json"] }
serde = { version = "1", features = ["derive"] }
serde_json = "1"
sha2 = "=0.10.9"
sqlx = { version = "0.8", default-features = false, features = ["runtime-tokio", "sqlite", "macros"] }
tokio = { version = "1", features = ["full"] }
tokio-tungstenite = { version = "*", features = ["rustls-tls-webpki-roots"] }
tracing = "0.1"
tracing-subscriber = { version = "0.3", features = ["env-filter"] }
url = "=2.5.8"
uuid = { version = "=1.29.0", features = ["v4"] }
zcash_address = "=0.14.0"
zcash_note_encryption = "=0.5.1"
zcash_primitives = { version = "=0.31.0", default-features = false }
zcash_protocol = "=0.11.0"
