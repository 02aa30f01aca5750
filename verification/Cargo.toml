[package]
name = "triodion"
version = "0.1.0"
edition = "2021"
publish = false

[dependencies]
alloy = { version = "1", default-features = false, features = ["std", "sol-types", "rpc-types-eth"] }
heck = "0.5"
polars = { version = "*", default-features = false }
serde = { version = "1", features = ["derive"] }
tokio = { version = "1", features = ["sync", "rt"] }
