[package]
name = "chain_rpc"
version = "0.1.0"
edition = "2021"
publish = false

[dependencies]
hex = "=0.4.3"
serde_json = "=1.0.151"
futures = "=0.3.34"
env_logger = "=0.11.11"
