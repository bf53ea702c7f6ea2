[package]
name = "dot_kernels"
version = "0.1.0"
edition = "2021"
publish = false

[dependencies]
rustc_apfloat = "*"
rayon = "*"
num_cpus = "*"
rand = "0.8"
rand_distr = "0.4"
cblas = "*"
