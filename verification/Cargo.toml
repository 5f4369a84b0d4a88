[package]
name = "whale_vesting"
version = "0.1.0"
edition = "2021"
publish = false

[dependencies]
cosmwasm-std = "=1.0.1"
cosmwasm-storage = "=1.0.1"
cw2 = "=0.13.4"
cw20 = "=0.13.4"
schemars = "0.8"
serde = { version = "1", features = ["derive"] }
terraswap = "=2.9.0"
