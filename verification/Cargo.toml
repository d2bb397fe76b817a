[package]
name = "opaque_ke"
version = "0.1.0"
edition = "2021"
publish = false

[dependencies]
p256 = { version = "=0.13.2", features = ["ecdh", "ecdsa", "hash2curve", "voprf", "sha256"] }
ecdsa = { version = "=0.16.9", features = ["hazmat", "arithmetic", "signing", "verifying", "digest"] }
sha2 = "=0.10.9"
hmac = "=0.12.1"
hkdf = "=0.12.4"
digest = "=0.10.7"
rand = "=0.8.8"
rand_core = { version = "=0.6.4", features = ["getrandom"] }
subtle = "=2.6.1"
zeroize = "=1.9.1"
voprf = { version = "=0.5.0", features = ["danger"] }
serde = { version = "=1.0.229", features = ["derive"] }
