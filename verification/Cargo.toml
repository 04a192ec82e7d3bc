[package]
name = "monte_walk"
version = "0.1.0"
edition = "2021"
publish = false

[dependencies]
rayon = "*"
rand = "*"
rand_distr = "*"
serde = { version = "*", features = ["derive"] }
tokio = { version = "*", features = ["macros", "rt-multi-thread"] }
chrono = "*"
coingecko = "*"
