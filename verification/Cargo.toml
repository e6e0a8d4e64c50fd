[package]
name = "touchhouse"
version = "2.1.0"
edition = "2021"
publish = false

[dependencies]
crc32fast = "1"
dashmap = "6"
derive_more = { version = "2", features = ["display"] }
env_logger = "0.11"
futures = "0.3"
log = "0.4"
lz4 = "1"
memmap2 = "0.9"
rayon = "1"
rkyv = { version = "0.8", features = ["uuid-1"] }
rmp-serde = "1"
serde = { version = "1", features = ["derive"] }
sqlparser = "0.59"
tokio = { version = "1", features = ["net", "rt-multi-thread", "macros", "sync"] }
tokio-util = { version = "0.7", features = ["codec"] }
toml = "0.9"
uuid = { version = "1", features = ["v7", "serde"] }
