[package]
name = "lust"
version = "0.1.0"
edition = "2021"
publish = false

[dependencies]
anyhow = "1"
async-trait = "0.1"
bytes = "1"
cloud-storage = "0.11"
crc32fast = "1"
hashbrown = "0.14"
hex = "0.4"
once_cell = "1"
serde = { version = "1", features = ["derive"] }
sha2 = "0.10"
tokio = { version = "1", features = ["rt", "rt-multi-thread", "sync", "macros"] }
