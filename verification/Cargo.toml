[package]
name = "krb5-rs"
version = "0.1.0"
edition = "2021"
publish = false

[dependencies]
aes = "*"
hmac = "*"
sha1 = "*"
sha2 = "*"
md-5 = "*"
pbkdf2 = { version = "*", default-features = false, features = ["hmac"] }
rand = "*"
chrono = "0.4"
rasn = "*"
subtle = "2"
zeroize = "1"
bitflags = "2"
thiserror = "2"
tokio = { version = "1", features = ["net", "time", "rt", "sync", "io-util", "macros"] }
hickory-resolver = { version = "0.25", features = ["tokio", "system-config"] }
