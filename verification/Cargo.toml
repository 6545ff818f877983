[package]
name = "file_commander"
version = "0.1.0"
edition = "2021"
publish = false

[dependencies]
anyhow = "=1.0.104"
base64 = "=0.22.1"
chrono = "=0.4.45"
crc32fast = "=1.5.4"
fs_extra = "=1.3.0"
md5 = "=0.7.0"
sha1 = "=0.10.7"
sha2 = "=0.10.9"
sha3 = "=0.10.9"
walkdir = "=2.5.0"
zip = { version = "=2.6.1", default-features = false, features = ["deflate"] }
humantime = "=2.4.0"
iced = { version = "=0.14.0", default-features = false, features = ["tiny-skia", "x11", "thread-pool"] }

[dev-dependencies]
tempfile = "=3.27.0"
