[package]
name = "uzu_engine"
version = "0.1.0"
edition = "2021"
publish = false

[dependencies]
rhai = "1"
xxhash-rust = { version = "0.8", features = ["xxh3"] }
blake3 = { version = "1", features = ["pure"] }
syn = { version = "2", features = ["full", "extra-traits", "visit-mut"] }
quote = "1"
proc-macro2 = "1"
depfile = "*"
zstd = "*"
half = { version = "2", features = ["num-traits"] }
num-traits = "0.2"
bytemuck = "1"
bitflags = "2"
serde = { version = "1", features = ["derive"] }
serde_json = "1"
anyhow = "1"
thiserror = "*"
walkdir = "2"
tempfile = "3"
tokio = { version = "1", features = ["rt", "macros", "process", "io-util", "sync"] }
futures = "0.3"
async-trait = "0.1"
parking_lot = "0.12"
itertools = "*"
