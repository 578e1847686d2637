[package]
name = "cw_indexer"
version = "0.1.0"
edition = "2021"
publish = false

[dependencies]
cosmos-sdk-proto = { version = "=0.27.0", features = ["grpc-transport", "cosmwasm"] }
tonic = "=0.13.1"
tokio = { version = "=1.53.2", features = ["rt-multi-thread", "macros", "sync"] }
futures = "=0.3.34"
log = "=0.4.34"
serde_json = "=1.0.151"
