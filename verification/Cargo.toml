[package]
name = "raycasting_term"
version = "0.1.0"
edition = "2021"
publish = false

[dependencies]
winterm = "=0.6.0"
crossterm = "=0.25.0"
clap = { version = "=4.6.7", features = ["derive"] }
image = "=0.25.10"
nalgebra = "=0.31.4"

[dev-dependencies]
bincode = "=1.3.3"
serde = "=1.0.229"
