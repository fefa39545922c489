[package]
name = "rustcommon"
version = "0.1.0"
edition = "2021"
publish = false

[dependencies]
crossbeam = "0.8"
dashmap = "5"
rand = "0.8"
rand_distr = "0.4"
time = "0.3"
