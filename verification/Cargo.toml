[package]
name = "toot-3d"
version = "0.1.0"
edition = "2021"
publish = false

[dependencies]
bit-set = "=0.5.3"
chrono = { version = "=0.4.45", features = ["serde"] }
image = "=0.24.9"
libc = "=0.2.191"
lru = { version = "=0.10.1", default-features = false }
qrcode = { version = "=0.12.0", default-features = false }
quick-xml = "=0.28.2"
serde = { version = "=1.0.229", features = ["derive"] }
serde_json = "=1.0.154"
unicode-linebreak = "=0.1.5"
url = "=2.5.8"
urlencoding = "=2.1.3"
