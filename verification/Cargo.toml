[package]
name = "miden_trace"
version = "0.1.0"
edition = "2021"
publish = false

[dependencies]
itertools = "=0.14.0"
miden-air = { version = "=0.18.3", default-features = false, features = ["std"] }
miden-core = { version = "=0.19.1", default-features = false, features = ["std"] }
rayon = "=1.12.0"
winter-prover = { version = "=0.13.1", default-features = false, features = ["std"] }
