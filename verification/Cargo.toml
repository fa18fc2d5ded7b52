[package]
name = "supersid"
version = "0.1.0"
edition = "2021"
publish = false

[dependencies]
welch-sde = "*"
serde = { version = "*", features = ["derive"] }
rand = "*"
rand_distr = "*"
complot = "*"
