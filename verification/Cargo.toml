[package]
name = "fuel_node_core"
version = "0.1.0"
edition = "2021"
publish = false

[dependencies]
tokio = { version = "1", features = ["sync", "rt", "rt-multi-thread", "macros", "time"] }

[dev-dependencies]
primitive-types = "*"
