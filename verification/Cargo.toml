[package]
name = "binned_stats"
version = "0.1.0"
edition = "2021"
publish = false

[dev-dependencies]
noisy_float = "*"
num-traits = "*"
rand = "*"
