[package]
name = "find_food"
version = "0.1.0"
edition = "2021"
publish = false

[dependencies]
rand = "0.8"
rand_distr = "0.4"
fastapprox = "0.3"
rulinalg = "0.4"
