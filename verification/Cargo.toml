[package]
name = "globed_game_server"
version = "0.1.0"
edition = "2021"
publish = false

[dependencies]
rustc-hash = "2"
rand = "0.8"
crypto_box = { version = "0.9", features = ["chacha20"] }
tokio = { version = "1", features = ["net", "rt-multi-thread", "sync", "time", "io-util"] }
reqwest = { version = "0.12", default-features = false }
