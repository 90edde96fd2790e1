[package]
name = "vallicks"
version = "0.1.0"
edition = "2021"
publish = false

[dependencies]
hashbrown = "=0.17.1"
crossbeam-queue = "=0.3.14"
spin = "=0.12.3"
futures-util = "=0.3.34"
x86_64 = { version = "=0.15.5", default-features = false, features = ["instructions"] }
