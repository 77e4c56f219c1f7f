[package]
name = "deckery_auth"
version = "0.1.0"
edition = "2021"
publish = false

[dependencies]
argon2 = { version = "0.5", features = ["std"] }
evdev = "0.12"
pamsm = { version = "0.5", features = ["libpam"] }
rpassword = "7"
anyhow = "1"
thiserror = "1"
libc = "0.2"
