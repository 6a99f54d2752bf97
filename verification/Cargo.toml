[package]
name = "hydra_math"
version = "0.1.0"
edition = "2021"
publish = false

[dependencies]
anchor-lang = { version = "=0.24.2", features = ["init-if-needed"] }
anchor-spl = "=0.24.2"
pyth-client = { version = "=0.5.1", features = ["no-entrypoint"] }
spl-math = { version = "=0.1.0", features = ["no-entrypoint"] }
derivative = "=2.2.0"
solana-program = "=1.9.29"
wasm-bindgen = "0.2"
