[package]
name = "lantern"
version = "0.1.0"
edition = "2021"
publish = false

[dependencies]
argon2 = "0.5"
base64 = "0.22"
getrandom = "0.3"
vodozemac = "0.9"
zeroize = "1"
libc = "0.2"
rusqlite = { version = "0.37", features = ["bundled"] }

[dev-dependencies]
minicbor = { version = "0.26", features = ["std"] }
