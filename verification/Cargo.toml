[package]
name = "cottas_rs"
version = "0.1.0"
edition = "2021"
publish = false

[dependencies]
oxrdf = "=0.3.5"
oxrdfio = "=0.2.7"
clap = { version = "=4.6.7", features = ["derive"] }
duckdb = { version = "=1.20000.0", default-features = false }
