[package]
name = "tempest_lcd"
version = "0.1.0"
edition = "2021"
publish = false

[dependencies]
clap = { version = "4", features = ["derive"] }
midly = "0.5"
rand = "0.8"
rand_distr = "0.4"
sdl2 = "0.35"
