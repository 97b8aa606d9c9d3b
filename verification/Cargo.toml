[package]
name = "sierra_ap_change"
version = "0.1.0"
edition = "2021"
publish = false

[dependencies]
cairo-lang-eq-solver = "=2.20.0"
cairo-lang-utils = "=2.20.0"
anyhow = "*"
cairo-lang-compiler = "=2.20.0"
cairo-lang-diagnostics = "=2.20.0"
cairo-lang-filesystem = "=2.20.0"
cairo-lang-runnable-utils = "=2.20.0"
cairo-lang-runner = "=2.20.0"
cairo-lang-sierra = "=2.20.0"
cairo-lang-sierra-generator = "=2.20.0"
cairo-lang-starknet = "=2.20.0"
clap = { version = "*", features = ["derive"] }
