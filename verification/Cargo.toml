[package]
name = "iphone_call_export"
version = "0.1.0"
edition = "2021"
publish = false

[dependencies]
aes = "0.8"
pbkdf2 = "0.12"
sha1 = "0.10"
sha2 = "0.10"
zeroize = "1"
plist = "1"
anyhow = "1"
chrono = "0.4"
clap = { version = "4", features = ["derive"] }
csv = "1"
directories = "*"
indicatif = "0.17"
rpassword = "7"
rusqlite = { version = "*", features = ["bundled"] }
tempfile = "3"
