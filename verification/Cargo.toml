[package]
name = "toy_payments_engine"
version = "0.1.0"
edition = "2021"
publish = false

[dependencies]
clap = "4"
csv = "1"
futures = "0.3"
num_cpus = "1"
rayon = "1"
rust_decimal = "1"
thiserror = "1"
tokio = { version = "1", features = ["fs", "io-util", "macros", "rt-multi-thread"] }
