[package]
name = "packsync"
version = "0.1.0"
edition = "2021"
publish = false

[dependencies]
async-recursion = "*"
reqwest = { version = "*", default-features = false }
serde = { version = "*", features = ["derive"] }
serde_json = "*"
sha2 = "*"
tokio = { version = "*", features = ["fs", "rt", "rt-multi-thread", "sync", "time", "io-util"] }
