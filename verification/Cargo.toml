[package]
name = "mcd_core"
version = "0.1.0"
edition = "2021"
publish = false

[dependencies]
bytes = "1"
parking_lot = "0.12"
arc-swap = "1"
once_cell = "1"
async-trait = "0.1"
thiserror = "*"
tokio = { version = "1", features = ["sync", "rt", "macros"] }
napi = { version = "2", features = ["async", "napi4"] }
napi-derive = "2"
