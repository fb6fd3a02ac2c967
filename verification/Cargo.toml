[package]
name = "dsh_desktop"
version = "1.2.1"
edition = "2021"
publish = false

[dependencies]
semver = "1"
shell-words = "1"
sha2 = "0.10"
flate2 = "1"
serde_json = "1"
url = "2"
serde = { version = "1", features = ["derive"] }
ureq = "2"
tar = "0.4"
zip = { version = "2", default-features = false, features = ["deflate"] }
chrono = { version = "0.4", default-features = false, features = ["clock"] }
libc = "0.2"
