[package]
name = "wallet_adapter"
version = "0.1.0"
edition = "2021"
publish = false

[dependencies]
async-channel = "2"
blake3 = { version = "1", features = ["pure"] }
bs58 = "0.5"
ed25519-dalek = "2"
rand_chacha = "0.9"
rand_core = { version = "0.9", features = ["os_rng"] }
web-sys = { version = "0.3", features = ["console", "CustomEvent", "CustomEventInit", "Event", "EventTarget", "Window"] }
