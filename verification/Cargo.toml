[package]
name = "chess_bft"
version = "0.1.0"
edition = "2021"
publish = false

[dependencies]
alloy-primitives = "*"
sha2 = "*"
hex = "*"
libsecp256k1 = "*"
chrono = "*"
serde = { version = "*", features = ["derive"] }
serde_json = "*"
tokio = { version = "*", features = ["rt-multi-thread", "macros", "sync", "time"] }
clap = { version = "*", features = ["derive"] }
