[package]
name = "arpp"
version = "0.1.0"
edition = "2021"
publish = false

[dependencies]
libm = "0.2"
rand = "0.8"
rand_distr = "0.4"
clap = { version = "4", features = ["derive"] }
plotters = "0.3"
