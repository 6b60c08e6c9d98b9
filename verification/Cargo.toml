[package]
name = "fog_ingest_enclave"
version = "0.1.0"
edition = "2021"
publish = false

[dependencies]
aligned-cmov = "=3.0.0"
grpcio = { version = "0.13", default-features = false }
mc-oblivious-traits = "=3.0.0"
mc-rand = "=2.0.0"
zeroize = "=1.9.1"
