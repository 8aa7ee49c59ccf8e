[package]
name = "forest_car"
version = "0.1.0"
edition = "2021"
publish = false

[dependencies]
anyhow = "1"
chrono = "0.4"
cid = "0.11"
fvm_ipld_blockstore = "0.3"
fvm_shared = "4"
num-bigint = "0.4"
num-traits = "0.2"
parking_lot = "0.12"
serde = { version = "1", features = ["derive"] }
serde_json = "1"
strum = { version = "0.27", features = ["derive"] }
tempfile = "3"
tracing = "0.1"
url = "2"
walkdir = "2"
