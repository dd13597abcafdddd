[package]
name = "bn254_contract_adapter"
version = "0.1.0"
edition = "2021"
publish = false

[dependencies]
alloy = { version = "*", default-features = false, features = ["sol-types"] }
ark-bn254 = "0.4"
ark-ec = "0.4"
ark-ff = "0.4"
ark-std = "0.4"
clap = { version = "4", features = ["derive"] }
