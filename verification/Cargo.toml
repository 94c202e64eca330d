[package]
name = "velocty"
version = "0.1.0"
edition = "2021"
publish = false

[dependencies]
quick-xml = "0.37"
hmac = "0.12"
sha2 = "0.10"
hex = "0.4"
base64 = "0.22"
bcrypt = "0.16"
totp-rs = { version = "5", features = ["otpauth", "qr", "gen_secret"] }
rand = "0.8"
uuid = { version = "1", features = ["v4"] }
chrono = "0.4"
chrono-tz = "0.10"
url = "2"
serde = { version = "1", features = ["derive"] }
serde_json = "1"
log = "0.4"
dashmap = "6"
r2d2 = "0.8"
r2d2_sqlite = "0.24"
rusqlite = { version = "0.31", features = ["bundled"] }
reqwest = { version = "0.12", default-features = false, features = ["blocking", "json", "rustls-tls"] }
