[package]
name = "rvllm"
version = "0.1.0"
edition = "2021"
publish = false

[dependencies]
cudarc = { version = "0.16", default-features = false, features = ["std", "driver", "cuda-12060", "dynamic-loading"] }
half = "2"
memmap2 = "0.9"
rayon = "1"
rustfft = "6"
serde_json = "1"
