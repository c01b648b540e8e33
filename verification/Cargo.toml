[package]
name = "arisa"
version = "0.1.0"
edition = "2021"
publish = false

[dependencies]
adler = "*"
base64 = "*"
blake3 = "*"
chrono = "*"
crc32fast = "*"
dotenvy = "*"
md5 = "*"
poise = "*"
rand = "0.9"
reqwest = { version = "*", default-features = false, features = ["rustls-tls", "json"] }
scraper = "*"
serde = { version = "1", features = ["derive"] }
serde_json = "1"
sha1 = "*"
sha2 = "*"
tokio = { version = "1", features = ["macros", "rt-multi-thread", "time", "sync"] }
toml = "*"
urlencoding = "*"
uuid = { version = "1", features = ["v1", "v4", "v7"] }
