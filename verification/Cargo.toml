[package]
name = "sol_ranges"
version = "0.1.0"
edition = "2021"
publish = false

[dependencies]
ethers-core = "1"
petgraph = "0.6"
solang-parser = "0.2"
