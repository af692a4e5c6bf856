[package]
name = "sassafras_consensus"
version = "0.1.0"
edition = "2021"
publish = false

[dependencies]
merlin = "*"
schnorrkel = "*"
parity-scale-codec = { version = "*", features = ["derive"] }
sp-core = "*"
parking_lot = "*"
log = "*"
