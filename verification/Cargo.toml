[package]
name = "boel"
version = "0.1.0"
edition = "2021"
publish = false

[dependencies]
byteorder = "1.3"
clap = "2.33"
env_logger = "0.7"
log = "0.4"
ndarray = "0.13"
rand = "0.7"
rand_distr = "0.2"
