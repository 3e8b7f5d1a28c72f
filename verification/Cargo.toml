[package]
name = "elite_trader"
version = "0.1.0"
edition = "2021"
publish = false

[dependencies]
rand = "*"
time = "*"
serde = { version = "*", features = ["derive"] }
serde_json = "*"
crossbeam = "*"
num_cpus = "*"
getopts = "*"
