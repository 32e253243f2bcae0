[package]
name = "netstack"
version = "0.1.0"
edition = "2021"
publish = false

[dependencies]
pnet_packet = "*"
pnet_base = "*"
tokio = { version = "1", features = ["sync", "macros", "rt-multi-thread"] }
async-trait = "*"
