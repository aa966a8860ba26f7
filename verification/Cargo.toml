[package]
name = "fast_file"
version = "0.1.0"
edition = "2021"
publish = false

[dependencies]
fuzzy-matcher = "*"
num_cpus = "*"
walkdir = "*"
rayon = "*"
ctrlc = "*"
colored = "*"
clap = { version = "4", features = ["derive"] }
serde = { version = "1", features = ["derive"] }
serde_json = "1"
figlet-rs = "*"
arboard = { version = "*", default-features = false }
