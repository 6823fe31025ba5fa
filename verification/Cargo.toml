[package]
name = "prime_generator"
version = "0.1.0"
edition = "2021"
publish = false

[dependencies]
num-bigint = "0.4"
num-traits = "0.2"
num_cpus = "1"
csv = "1"
serde = { version = "1", features = ["derive"] }
clap = "3"
rayon = "1"
reqwest = { version = "0.11", default-features = false, features = ["json"] }
tokio = { version = "1", features = ["rt-multi-thread"] }
