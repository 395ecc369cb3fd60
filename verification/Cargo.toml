[package]
name = "super_massive_io"
version = "0.1.0"
edition = "2021"
publish = false

[dependencies]
rand_xoshiro = "0.6"
indicatif = "0.17"
anyhow = "1"
clap = "4"
libc = "0.2"
log = "0.4"
rayon = "1"
serde = { version = "1", features = ["derive"] }
serde_json = "1"

[dev-dependencies]
rand = "0.8"
