[package]
name = "ray_tracer_lib"
version = "0.1.0"
edition = "2021"
publish = false

[dependencies]
anyhow = "=1.0.104"
chrono = "=0.4.45"
clap = { version = "=4.6.7", features = ["derive", "env"] }
color-print = "=0.3.7"
glam = { version = "=0.34.0", features = ["serde"] }
image = "=0.25.10"
indicatif = "=0.18.6"
itertools = "=0.14.0"
noise = "=0.9.0"
once_cell = "=1.21.4"
rand = "=0.9.5"
rand_chacha = "=0.9.0"
rayon = "=1.12.0"
regex = "=1.13.1"
serde = { version = "=1.0.229", features = ["derive"] }
serde_json = "=1.0.151"
serde_with = "=3.24.0"
thiserror = "=2.0.21"
toml = "=1.1.6"
