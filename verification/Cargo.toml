[package]
name = "agent_work"
version = "0.1.0"
edition = "2021"
publish = false

[dependencies]
cosmwasm-schema = "2"
cosmwasm-std = "2"
cw-storage-plus = "2"
cw20 = "2"
thiserror = "1"
