[package]
name = "lunatic_runtime"
version = "0.1.0"
edition = "2021"
publish = false
rust-version = "1.95"

[dependencies]
anyhow = "=1.0.104"
clap = { version = "=4.6.7", features = ["derive"] }
easy-parallel = "=3.3.1"
env_logger = "=0.11.11"
lazy_static = "=1.5.1"
log = "=0.4.34"
smol = "=2.0.2"
walrus = "=0.27.2"
wasmtime = { version = "=45.0.3", default-features = false, features = ["async", "cranelift", "runtime", "std"] }
