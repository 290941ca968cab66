[package]
name = "allan_variance"
version = "0.1.0"
edition = "2021"
publish = false

[dependencies]
anyhow = "1"
cdr = "*"
clap = { version = "4", features = ["derive"] }
log = "0.4"
mcap = "*"
memmap2 = "*"
nalgebra = "*"
rayon = "1"
serde = { version = "1", features = ["derive"] }
serde_yaml_ng = "*"
