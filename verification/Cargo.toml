[package]
name = "cpuminer"
version = "0.1.0"
edition = "2021"
publish = false

[dependencies]
cryptoxide = "=0.6.5"
sp800-185 = "=0.2.0"
serde = { version = "=1.0.229", features = ["derive"] }
extended-primitives = { version = "=0.3.8", features = ["serialization"] }
