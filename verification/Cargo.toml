[package]
name = "austral_lib"
version = "0.1.0"
edition = "2021"
publish = false

[dependencies]
clap = { version = "4", features = ["derive"] }
llvm-sys = "*"
melior = "*"
mlir-sys = "*"
tempfile = "3"
