[package]
name = "barnes_hut"
version = "0.1.0"
edition = "2021"
publish = false

[dependencies]
instant = "0.1"
rand = "0.8"
rand_distr = "0.4"
rayon = "1"
