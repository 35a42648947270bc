[package]
name = "assume_rolers"
version = "0.1.0"
edition = "2021"
publish = false

[dependencies]
chrono = "=0.4.45"
clap = "=4.6.7"
tokio = { version = "=1.53.2", features = ["rt-multi-thread", "macros"] }
nix = { version = "=0.31.3", features = ["process"] }
reqwest = { version = "=0.13.5", default-features = false }
aws-config = "=1.12.0"
aws-sdk-sts = "=1.119.0"
wasmtime = "=48.0.5"
wasmtime-wasi = "=48.0.5"
