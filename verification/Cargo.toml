[package]
name = "aura"
version = "0.9.0"
edition = "2021"
publish = false

[dependencies]
smallvec = "=1.16.4"
serde = { version = "=1.0.229", features = ["derive"] }
serde_json = "=1.0.154"
atomic_float = "1"
realfft = "3"
