[package]
name = "optimistic_verifier"
version = "0.1.0"
edition = "2021"
publish = false

[dependencies]
lru = "0.7"
rand = "0.7"
prost = "0.12"
rayon = "1"
num_cpus = "1"
