[package]
name = "remc"
version = "0.1.0"
edition = "2021"
publish = false

[dependencies]
clap = { version = "=4.6.7", features = ["derive"] }
wat = { version = "=1.263.0", default-features = false }
wasmtime = { version = "=46.0.3", default-features = false, features = ["cranelift", "runtime", "std"] }
