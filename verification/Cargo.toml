[package]
name = "ptx_cache"
version = "0.1.0"
edition = "2021"
publish = false

[dependencies]
nvvm = "*"
tracing = "*"
pico-args = "*"
nanorand = "*"
cust = "*"
cuda_std = "*"
