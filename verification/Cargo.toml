[package]
name = "facet_protocol"
version = "0.1.0"
edition = "2021"
publish = false

[dependencies]
alloy-consensus = "1.8"
alloy-eips = "1.8"
alloy-primitives = { version = "=1.7.3", features = ["serde"] }
alloy-rpc-types-engine = "1.8"
async-trait = "0.1"
num-bigint = "=0.4.8"
num-rational = "=0.4.2"
num-traits = "=0.2.19"
op-alloy-consensus = "0.24"
op-alloy-rpc-types-engine = "0.24"
serde = { version = "1", features = ["derive"] }
tracing = "0.1"
