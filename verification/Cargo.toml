[package]
name = "vault"
version = "0.1.0"
edition = "2021"
publish = false

[dependencies]
argon2 = { version = "0.5", default-features = false, features = ["alloc"] }
chacha20poly1305 = { version = "0.10", default-features = false, features = ["alloc"] }
getrandom = "0.2"
hkdf = "0.12"
sha2 = "0.10"
subtle = "2"
zeroize = "1"
