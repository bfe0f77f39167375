[package]
name = "pricing"
version = "0.1.0"
edition = "2021"
publish = false

[dependencies]
rand = "0.8"
rand_distr = "0.4"
rand_hc = "0.3"
ndarray = "0.15"
probability = "*"

[dev-dependencies]
bigdecimal = "*"
num-traits = "*"
